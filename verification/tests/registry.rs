use plex_client::client::server::{
    Connection, ProbeTarget, Server, ServerRegistry, Status, MAX_AGE_NANOS,
};
use plex_client::client::{no_connection_left, Client, Method};
use plex_client::error::{Error, NetworkError};
use plex_client::models::resource::{Connection as ResourceConnection, Resource};

fn rconn(protocol: &str, uri: &str, local: bool, relay: bool) -> ResourceConnection {
    ResourceConnection {
        protocol: protocol.to_string(),
        address: "10.0.0.1".to_string(),
        port: 32400,
        uri: uri.to_string(),
        local,
        relay,
        ipv6: false,
    }
}

fn resource(id: &str, token: Option<&str>, connections: Vec<ResourceConnection>) -> Resource {
    Resource {
        name: format!("name-{}", id),
        product: "Plex Media Server".to_string(),
        product_version: "1.0".to_string(),
        platform: "Linux".to_string(),
        platform_version: "6".to_string(),
        device: None,
        client_identifier: id.to_string(),
        provides: "server".to_string(),
        owner_id: None,
        source_title: None,
        public_address: "1.2.3.4".to_string(),
        access_token: token.map(|t| t.to_string()),
        search_enabled: false,
        created_at: "2020".to_string(),
        last_seen_at: "2021".to_string(),
        owned: true,
        home: false,
        synced: false,
        relay: true,
        presence: true,
        https_required: false,
        public_address_matches: true,
        dns_rebinding_protection: None,
        nat_loopback_supported: None,
        connections,
    }
}

fn urls(s: &Server) -> Vec<String> {
    s.connections.iter().map(|c| c.url.clone()).collect()
}

fn sample_resources() -> Vec<Resource> {
    vec![
        resource(
            "srv1",
            Some("tok1"),
            vec![
                rconn("http", "relay-http", false, true),
                rconn("https", "remote-https", false, false),
                rconn("http", "local-http", true, false),
                rconn("HTTPS", "relay-https", false, true),
                rconn("http", "remote-http", false, false),
                rconn("https", "local-https", true, false),
                rconn("https", "local-https-2", true, true),
            ],
        ),
        resource("phone", None, vec![rconn("https", "phone-conn", true, false)]),
        resource("srv2", Some("tok2"), vec![rconn("hTtPs", "a", false, false)]),
    ]
}

#[test]
fn rank_orders_local_direct_https_first() {
    let c = |local, relay, https| Connection {
        url: String::new(),
        token: String::new(),
        status: Status::Idle,
        is_https: https,
        is_relay: relay,
        is_local: local,
    };
    assert_eq!(c(true, false, true).rank(), 0);
    assert_eq!(c(true, true, true).rank(), 0);
    assert_eq!(c(true, true, false).rank(), 1);
    assert_eq!(c(false, false, true).rank(), 2);
    assert_eq!(c(false, false, false).rank(), 3);
    assert_eq!(c(false, true, true).rank(), 4);
    assert_eq!(c(false, true, false).rank(), 5);
}

#[test]
fn from_resources_keeps_servers_with_tokens_and_sorts_connections() {
    let servers = Server::from_resources(sample_resources());
    assert_eq!(servers.len(), 2);
    assert_eq!(servers[0].id, "srv1");
    assert_eq!(servers[0].token, "tok1");
    assert_eq!(servers[0].best_connection_index, None);
    assert_eq!(
        urls(&servers[0]),
        vec![
            "local-https",
            "local-https-2",
            "local-http",
            "remote-https",
            "remote-http",
            "relay-https",
            "relay-http",
        ]
    );
    assert!(servers[0].connections.iter().all(|c| c.token == "tok1" && c.status == Status::Idle));
    assert!(servers[0].connections[5].is_https);
    assert!(!servers[0].connections[6].is_https);
    assert_eq!(servers[1].id, "srv2");
    assert!(servers[1].connections[0].is_https);
}

#[test]
fn needs_refresh_reads_the_clock() {
    let mut reg = ServerRegistry::default();
    assert!(reg.needs_refresh());
    assert!(!reg.needs_refresh());
    reg.refresh(sample_resources());
    assert!(reg.last_refreshed().is_some());
    assert!(!reg.is_refreshing());
    assert_eq!(reg.servers().len(), 2);
    // listed just now: not stale
    assert!(!reg.needs_refresh());
}

#[test]
fn needs_refresh_protocol() {
    let mut reg = ServerRegistry::default();
    assert!(reg.needs_refresh_at(0));
    // a refresh is under way: nobody else is told to refresh
    assert!(!reg.needs_refresh_at(1));
    assert!(!reg.needs_refresh_at(u128::MAX));
    reg.release_refreshing();
    assert!(reg.needs_refresh_at(5));
    reg.refresh_at(sample_resources(), 1_000);
    assert!(!reg.is_refreshing());
    assert_eq!(reg.last_refreshed(), Some(1_000));
    assert!(!reg.needs_refresh_at(1_000 + MAX_AGE_NANOS));
    assert!(!reg.needs_refresh_at(500));
    assert!(reg.needs_refresh_at(1_000 + MAX_AGE_NANOS + 1));
    assert!(!reg.needs_refresh_at(1_000 + MAX_AGE_NANOS + 2));
}

fn registry() -> ServerRegistry {
    let mut reg = ServerRegistry::default();
    reg.refresh_at(sample_resources(), 0);
    reg
}

#[test]
fn probe_targets_cover_every_connection_and_reset_state() {
    let mut reg = registry();
    let targets = reg.probe_targets();
    assert_eq!(targets.len(), 8);
    assert_eq!(targets[0].server_id, "srv1");
    assert_eq!(targets[0].connection_index, 0);
    assert_eq!(targets[0].connection.url, "local-https");
    assert_eq!(targets[6].connection_index, 6);
    assert_eq!(targets[7].server_id, "srv2");
    assert_eq!(targets[7].connection_index, 0);
    assert!(targets.iter().all(|t| t.connection.status == Status::Idle));
    reg.mark_probe_result(&targets[2], Status::Reachable);
    let again = reg.probe_targets();
    assert_eq!(again.len(), 8);
    assert_eq!(reg.servers()[0].best_connection_index, None);
    assert!(reg.servers()[0].connections.iter().all(|c| c.status == Status::Idle));
}

#[test]
fn first_reachable_probe_becomes_best() {
    let mut reg = registry();
    let targets = reg.probe_targets();
    reg.mark_probe_result(&targets[1], Status::Unreachable);
    assert_eq!(reg.servers()[0].best_connection_index, None);
    assert_eq!(reg.servers()[0].connections[1].status, Status::Unreachable);
    reg.mark_probe_result(&targets[3], Status::Reachable);
    assert_eq!(reg.servers()[0].best_connection_index, Some(3));
    reg.mark_probe_result(&targets[0], Status::Reachable);
    assert_eq!(reg.servers()[0].best_connection_index, Some(3));
    assert_eq!(reg.servers()[0].connections[0].status, Status::Reachable);
    reg.mark_probe_result(&targets[3], Status::Unreachable);
    assert_eq!(reg.servers()[0].best_connection_index, None);
    assert_eq!(reg.servers()[1].best_connection_index, None);
}

#[test]
fn stale_probe_results_are_dropped() {
    let mut reg = registry();
    let targets = reg.probe_targets();
    let wrong_url = ProbeTarget {
        server_id: "srv1".to_string(),
        connection_index: 2,
        connection: targets[4].connection.clone(),
    };
    reg.mark_probe_result(&wrong_url, Status::Reachable);
    assert_eq!(reg.servers()[0].best_connection_index, None);
    assert_eq!(reg.servers()[0].connections[2].status, Status::Idle);
    let out_of_range = ProbeTarget {
        server_id: "srv1".to_string(),
        connection_index: 40,
        connection: targets[0].connection.clone(),
    };
    reg.mark_probe_result(&out_of_range, Status::Reachable);
    assert_eq!(reg.servers()[0].best_connection_index, None);
    let unknown = ProbeTarget {
        server_id: "nope".to_string(),
        connection_index: 0,
        connection: targets[0].connection.clone(),
    };
    reg.record_probe(&unknown, true);
    assert_eq!(reg.servers()[0].best_connection_index, None);
}

#[test]
fn record_probe_maps_outcome_to_status() {
    let mut reg = registry();
    let targets = reg.probe_targets();
    reg.record_probe(&targets[7], true);
    assert_eq!(reg.servers()[1].best_connection_index, Some(0));
    assert_eq!(reg.servers()[1].connections[0].status, Status::Reachable);
    reg.record_probe(&targets[7], false);
    assert_eq!(reg.servers()[1].best_connection_index, None);
    assert_eq!(reg.servers()[1].connections[0].status, Status::Unreachable);
}

#[test]
fn server_targets_put_best_connection_first() {
    let mut reg = registry();
    let targets = reg.probe_targets();
    reg.mark_probe_result(&targets[4], Status::Reachable);
    let order: Vec<u8> = reg.server_targets("srv1").iter().map(|t| t.connection_index).collect();
    assert_eq!(order, vec![4, 0, 1, 2, 3, 5, 6]);
    let first = &reg.server_targets("srv1")[0];
    assert_eq!(first.connection.url, "remote-http");
    assert_eq!(first.connection.status, Status::Reachable);
    assert!(reg.server_targets("missing").is_empty());
    let plain: Vec<u8> = reg.server_targets("srv2").iter().map(|t| t.connection_index).collect();
    assert_eq!(plain, vec![0]);
}

fn transport_error() -> Error {
    Error::Network(NetworkError {
        message: "connection refused".to_string(),
        is_connect: true,
        is_timeout: false,
        has_status: false,
        is_decode: false,
        is_builder: false,
        is_redirect: false,
    })
}

#[test]
fn server_attempts_follow_outcomes() {
    let mut client = Client::builder().client_identifier("me").token("acct").build().unwrap();
    assert!(client.needs_refresh());
    assert!(client.complete_refresh(Ok(sample_resources())).is_ok());
    let attempts = client.server_requests("srv1", Method::Get, plex_client::client::Api::Raw, "/identity", &Vec::new());
    assert_eq!(attempts.len(), 7);
    assert_eq!(attempts[0].1.url, "local-https/identity");
    assert_eq!(attempts[0].1.token.as_deref(), Some("tok1"));

    let mut last: Option<Error> = None;
    let r = client.server_attempt::<u32>(&attempts[0].0, Err(transport_error()), &mut last);
    assert!(r.is_none());
    assert!(matches!(last, Some(Error::Network(_))));
    assert_eq!(client.registry().servers()[0].connections[0].status, Status::Unreachable);

    let r = client.server_attempt::<u32>(&attempts[1].0, Ok(7), &mut last);
    assert!(matches!(r, Some(Ok(7))));
    assert_eq!(client.registry().servers()[0].best_connection_index, Some(1));

    let mut last2: Option<Error> = None;
    let r = client.server_attempt::<u32>(
        &attempts[2].0,
        Err(Error::Api { status: 401, message: "no".to_string() }),
        &mut last2,
    );
    assert!(matches!(r, Some(Err(Error::Api { status: 401, .. }))));
    assert!(last2.is_none());
    assert_eq!(client.registry().servers()[0].connections[2].status, Status::Idle);
}

#[test]
fn no_connection_left_reports_last_failure_or_absence() {
    match no_connection_left("srv9", None) {
        Error::Generic(m) => assert_eq!(m, "Server (srv9) has no connections"),
        other => panic!("unexpected {:?}", other),
    }
    assert!(matches!(no_connection_left("srv9", Some(transport_error())), Error::Network(_)));
}

#[test]
fn complete_refresh_with_list_or_failure() {
    let mut reg = ServerRegistry::default();
    assert!(reg.needs_refresh_at(0));
    let r = reg.complete_refresh(Err(Error::Generic("down".to_string())));
    assert!(matches!(r, Err(Error::Generic(_))));
    assert!(!reg.is_refreshing());
    assert!(reg.servers().is_empty());
    assert!(reg.last_refreshed().is_none());
    assert!(reg.needs_refresh_at(1));
    assert!(reg.complete_refresh(Ok(sample_resources())).is_ok());
    assert!(!reg.is_refreshing());
    assert_eq!(reg.servers().len(), 2);
    assert!(reg.last_refreshed().is_some());
}

#[test]
fn probe_round_chooses_first_answer_in_order() {
    let mut client = Client::builder().client_identifier("me").token("acct").build().unwrap();
    assert!(client.needs_refresh());
    assert!(client.complete_refresh(Ok(sample_resources())).is_ok());
    let targets = client.probe_targets();
    let answers = [false, false, true, false, true, true, false, true];
    for (target, answered) in targets.iter().zip(answers.iter()) {
        client.record_probe(target, *answered);
    }
    assert_eq!(client.registry().servers()[0].best_connection_index, Some(2));
    assert_eq!(client.registry().servers()[1].best_connection_index, Some(0));
    // nothing answered: no connection is chosen
    let again = client.probe_targets();
    for target in again.iter() {
        client.record_probe(target, false);
    }
    assert_eq!(client.registry().servers()[0].best_connection_index, None);
    assert_eq!(client.registry().servers()[1].best_connection_index, None);
    assert_eq!(client.client_id(), "me");
    assert!(client.is_authenticated());
}

fn run_attempts(client: &mut Client, results: Vec<Result<u32, Error>>) -> (Result<u32, Error>, usize) {
    let attempts = client.server_requests("srv1", Method::Get, plex_client::client::Api::Raw, "/identity", &Vec::new());
    let mut last: Option<Error> = None;
    let mut tried = 0;
    for ((target, _), result) in attempts.iter().zip(results.into_iter()) {
        tried += 1;
        if let Some(outcome) = client.server_attempt(target, result, &mut last) {
            return (outcome, tried);
        }
    }
    (Err(no_connection_left("srv1", last)), tried)
}

#[test]
fn attempts_end_at_first_decisive_outcome() {
    let mut client = Client::builder().client_identifier("me").token("acct").build().unwrap();
    assert!(client.needs_refresh());
    assert!(client.complete_refresh(Ok(sample_resources())).is_ok());
    let (r, tried) = run_attempts(&mut client, vec![Err(transport_error()), Err(transport_error()), Ok(5), Ok(6)]);
    assert!(matches!(r, Ok(5)));
    assert_eq!(tried, 3);
    let (r, tried) = run_attempts(
        &mut client,
        vec![Err(transport_error()), Err(Error::Api { status: 500, message: "x".to_string() }), Ok(6)],
    );
    assert!(matches!(r, Err(Error::Api { status: 500, .. })));
    assert_eq!(tried, 2);
    let all_failed: Vec<Result<u32, Error>> = (0..7).map(|_| Err(transport_error())).collect();
    let (r, tried) = run_attempts(&mut client, all_failed);
    assert!(matches!(r, Err(Error::Network(_))));
    assert_eq!(tried, 7);
}

#[test]
fn server_requests_carry_the_query() {
    let mut client = Client::builder().client_identifier("me").token("acct").build().unwrap();
    assert!(client.needs_refresh());
    assert!(client.complete_refresh(Ok(sample_resources())).is_ok());
    let query = vec![("X-Plex-Container-Size".to_string(), "10".to_string())];
    let attempts = client.server_requests("srv2", Method::Post, plex_client::client::Api::V2, "/hubs", &query);
    assert_eq!(attempts.len(), 1);
    assert_eq!(attempts[0].1.url, "a/api/v2/hubs");
    assert_eq!(attempts[0].1.method, Method::Post);
    assert_eq!(attempts[0].1.query, query);
    assert_eq!(attempts[0].1.token.as_deref(), Some("tok2"));
    assert!(client.server_requests("none", Method::Get, plex_client::client::Api::Raw, "/", &query).is_empty());
}
