use plex_client::client::builder::ClientBuilder;
use plex_client::client::{Api, Base, Client, Method};
use plex_client::error::Error;

fn header_pairs(c: &Client) -> Vec<(String, String)> {
    c.default_headers().clone()
}

fn token_of(c: &Client) -> Option<String> {
    c.request(Method::Get, Base::Plex, Api::V2, "/user", Vec::new()).token
}

fn pair(a: &str, b: &str) -> (String, String) {
    (a.to_string(), b.to_string())
}

#[test]
fn build_requires_client_identifier() {
    let r = Client::builder().product("Plex Web").build();
    match r {
        Err(Error::Generic(m)) => assert_eq!(m, "client_identifier is required"),
        other => panic!("unexpected {:?}", other),
    }
}

#[test]
fn build_minimal_headers() {
    let c = Client::builder().client_identifier("abc-123").build().unwrap();
    assert_eq!(
        header_pairs(&c),
        vec![
            pair("accept", "application/json"),
            pair("X-Plex-Client-Identifier", "abc-123"),
            pair("user-agent", "plex_client/0.1.0"),
        ]
    );
    assert_eq!(c.client_id(), "abc-123");
    assert!(token_of(&c).is_none());
    assert!(!c.is_authenticated());
    assert!(c.registry().servers().is_empty());
    assert!(c.registry().last_refreshed().is_none());
    assert!(!c.registry().is_refreshing());
}

#[test]
fn build_all_headers_in_order() {
    let c = ClientBuilder::default()
        .client_identifier("id")
        .token("tok")
        .product("Prod")
        .version("1.2")
        .platform("Linux")
        .platform_version("6.1")
        .device("PC")
        .device_vendor("Acme")
        .device_name("desk")
        .model("M1")
        .marketplace("store")
        .build()
        .unwrap();
    assert_eq!(
        header_pairs(&c),
        vec![
            pair("accept", "application/json"),
            pair("X-Plex-Client-Identifier", "id"),
            pair("X-Plex-Product", "Prod"),
            pair("X-Plex-Version", "1.2"),
            pair("X-Plex-Platform", "Linux"),
            pair("X-Plex-Platform-Version", "6.1"),
            pair("X-Plex-Device", "PC"),
            pair("X-Plex-Device-Vendor", "Acme"),
            pair("X-Plex-Device-Name", "desk"),
            pair("X-Plex-Model", "M1"),
            pair("X-Plex-Marketplace", "store"),
            pair("user-agent", "Prod/1.2 - plex_client/0.1.0"),
        ]
    );
    assert_eq!(token_of(&c).as_deref(), Some("tok"));
    assert_eq!(c.product(), Some("Prod"));
    assert!(c.is_authenticated());
}

#[test]
fn user_agent_with_product_only() {
    let c = Client::builder().client_identifier("id").product("P").build().unwrap();
    assert_eq!(c.default_headers().last().unwrap().1, "P - plex_client/0.1.0");
}

#[test]
fn user_agent_with_version_only() {
    let c = Client::builder().client_identifier("id").version("9").build().unwrap();
    assert_eq!(c.default_headers().last().unwrap().1, "9 - plex_client/0.1.0");
}

#[test]
fn maybe_setters_set_and_clear() {
    let c = Client::builder()
        .client_identifier("id")
        .maybe_token(Some("t"))
        .maybe_product(Some("P"))
        .maybe_version(None)
        .maybe_platform(Some("Mac"))
        .maybe_platform_version(None)
        .maybe_device(Some("D"))
        .maybe_device_vendor(None)
        .maybe_device_name(Some("N"))
        .maybe_model(None)
        .maybe_marketplace(Some("M"))
        .build()
        .unwrap();
    assert_eq!(
        header_pairs(&c),
        vec![
            pair("accept", "application/json"),
            pair("X-Plex-Client-Identifier", "id"),
            pair("X-Plex-Product", "P"),
            pair("X-Plex-Platform", "Mac"),
            pair("X-Plex-Device", "D"),
            pair("X-Plex-Device-Name", "N"),
            pair("X-Plex-Marketplace", "M"),
            pair("user-agent", "P - plex_client/0.1.0"),
        ]
    );
    let cleared = Client::builder()
        .client_identifier("id")
        .token("t")
        .maybe_token(None)
        .product("P")
        .maybe_product(None)
        .build()
        .unwrap();
    assert!(token_of(&cleared).is_none());
    assert!(cleared.product().is_none());
}

#[test]
fn invalid_client_identifier_is_refused() {
    let r = Client::builder().client_identifier("bad\nid").build();
    assert!(matches!(r, Err(Error::InvalidHeaderValue)));
}

#[test]
fn invalid_optional_header_is_refused() {
    let r = Client::builder().client_identifier("id").device("a\u{7f}b").build();
    assert!(matches!(r, Err(Error::InvalidHeaderValue)));
}

#[test]
fn tab_and_non_ascii_header_values_are_accepted() {
    let c = Client::builder().client_identifier("id\tx").device("Wohnzimmer-Gerät").build().unwrap();
    assert_eq!(c.client_id(), "id\tx");
}

#[test]
fn setters_commute_and_the_last_wins() {
    let a = Client::builder().client_identifier("id").product("P").version("1").build().unwrap();
    let b = Client::builder().version("1").product("P").client_identifier("id").build().unwrap();
    assert_eq!(header_pairs(&a), header_pairs(&b));
    let c = Client::builder().client_identifier("id").token("first").maybe_token(Some("second")).build().unwrap();
    assert_eq!(token_of(&c).as_deref(), Some("second"));
    let d = Client::builder().client_identifier("id").product("x").maybe_product(None).build().unwrap();
    assert!(d.product().is_none());
}
