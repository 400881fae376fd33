use plex_client::client::server::{Connection, Status};
use plex_client::client::{Api, Base, Client, Method};
use plex_client::endpoints::{ResourcesRequest, ServerRequest};
use plex_client::error::Error;

fn conn(url: &str, token: &str) -> Connection {
    Connection {
        url: url.to_string(),
        token: token.to_string(),
        status: Status::Idle,
        is_https: true,
        is_relay: false,
        is_local: true,
    }
}

#[test]
fn resources_need_a_token() {
    let c = Client::builder().client_identifier("id").build().unwrap();
    match c.get_resources(true, true, true) {
        Err(Error::Generic(m)) => assert_eq!(m, "Missing authentication key"),
        other => panic!("unexpected {:?}", other),
    }
}

#[test]
fn resources_request() {
    let c = Client::builder().client_identifier("id").token("acct").build().unwrap();
    let r = c.get_resources(true, false, true).unwrap();
    assert_eq!(r.method, Method::Get);
    assert_eq!(r.url, "https://clients.plex.tv/api/v2/resources");
    assert_eq!(r.token.as_deref(), Some("acct"));
    let q: Vec<(String, String)> = r.query;
    assert_eq!(
        q,
        vec![
            ("includeHttps".to_string(), "1".to_string()),
            ("includeRelay".to_string(), "0".to_string()),
            ("includeIPv6".to_string(), "1".to_string()),
        ]
    );
}

#[test]
fn identity_request_uses_connection_token() {
    let c = Client::builder().client_identifier("id").token("acct").build().unwrap();
    let r = c.get_identity(&conn("https://10-0-0-1.abc.plex.direct:32400", "srv-token"));
    assert_eq!(r.url, "https://10-0-0-1.abc.plex.direct:32400/identity");
    assert_eq!(r.token.as_deref(), Some("srv-token"));
    assert!(r.query.is_empty());
}

#[test]
fn requests_to_plex_carry_account_token() {
    let c = Client::builder().client_identifier("id").token("acct").build().unwrap();
    let r = c.request(Method::Post, Base::Plex, Api::V2, "/pins", Vec::new());
    assert_eq!(r.url, "https://plex.tv/api/v2/pins");
    assert_eq!(r.method, Method::Post);
    assert_eq!(r.token.as_deref(), Some("acct"));
    let anonymous = Client::builder().client_identifier("id").build().unwrap();
    let r = anonymous.request(Method::Get, Base::Clients, Api::Raw, "/x", Vec::new());
    assert_eq!(r.url, "https://clients.plex.tv/x");
    assert!(r.token.is_none());
}

#[test]
fn base_and_api_strings() {
    assert_eq!(Base::Plex.as_str(), "https://plex.tv");
    assert_eq!(Base::Clients.as_str(), "https://clients.plex.tv");
    assert_eq!(Base::Connection(conn("u", "t")).as_str(), "u");
    assert_eq!(Api::Raw.as_str(), "");
    assert_eq!(Api::V2.as_str(), "/api/v2");
}

#[test]
fn identity_with_unknown_server_has_no_attempts() {
    let c = Client::builder().client_identifier("id").token("acct").build().unwrap();
    assert!(c.get_identity_with("nobody").is_empty());
}
