use base64::Engine;
use plex_client::client::crypto::DeviceKeypair;
use plex_client::client::auth::{unix_seconds_from_reading, MAX_UNIX_SECONDS};
use plex_client::client::{api_error, is_success_status, Client, Method};
use plex_client::error::Error;
use plex_client::models::auth::pin::{PinLocation, PinResponse, Timestamp};
use plex_client::models::auth::token::NonceResponse;

fn pin(code: &str) -> PinResponse {
    PinResponse {
        id: 77,
        code: code.to_string(),
        product: "p".to_string(),
        trusted: false,
        qr: "qr".to_string(),
        client_identifier: "cid".to_string(),
        location: PinLocation {
            code: "DE".to_string(),
            european_union_member: true,
            continent_code: "EU".to_string(),
            country: "Germany".to_string(),
            city: "Berlin".to_string(),
            time_zone: "Europe/Berlin".to_string(),
            postal_code: "10115".to_string(),
            in_privacy_restricted_country: false,
            in_privacy_restricted_region: false,
            subdivisions: "BE".to_string(),
            coordinates: "0,0".to_string(),
        },
        expires_in: 900,
        created_at: Timestamp { seconds: 1, nanos: 0 },
        expires_at: Timestamp { seconds: 901, nanos: 0 },
        auth_token: None,
        new_registration: None,
    }
}

fn b64(s: &str) -> Vec<u8> {
    base64::engine::general_purpose::URL_SAFE_NO_PAD.decode(s).unwrap()
}

#[test]
fn auth_url_short_code_uses_link_page() {
    let c = Client::builder().client_identifier("abc").product("My App").build().unwrap();
    assert_eq!(c.auth_url(&pin("AB12"), Some("https://x")), "https://plex.tv/link/?pin=AB12");
}

#[test]
fn auth_url_long_code_without_product() {
    let c = Client::builder().client_identifier("abc").build().unwrap();
    assert_eq!(
        c.auth_url(&pin("longcode123"), None),
        "https://app.plex.tv/auth#?clientID=abc&code=longcode123"
    );
}

#[test]
fn auth_url_long_code_with_product_and_forward() {
    let c = Client::builder().client_identifier("abc").product("My App/ü").build().unwrap();
    assert_eq!(
        c.auth_url(&pin("longcode123"), Some("https://e.com/a?b=c&d")),
        "https://app.plex.tv/auth#?clientID=abc&code=longcode123\
&context%5Bdevice%5D%5Bproduct%5D=My%20App%2F%C3%BC\
&forwardUrl=https%3A%2F%2Fe.com%2Fa%3Fb%3Dc%26d"
    );
}

#[test]
fn four_byte_code_counts_bytes_not_chars() {
    let c = Client::builder().client_identifier("abc").build().unwrap();
    // two characters, four bytes
    assert_eq!(c.auth_url(&pin("éé"), None), "https://plex.tv/link/?pin=éé");
    // four characters, five bytes
    assert!(c.auth_url(&pin("éabc"), None).starts_with("https://app.plex.tv/auth#?"));
}

#[test]
fn request_pin_carries_the_jwk() {
    let c = Client::builder().client_identifier("abc").token("acct").build().unwrap();
    let k = DeviceKeypair::from_bytes(&[9u8; 32], "kid-9");
    let (request, body) = c.request_pin(true, &k);
    assert_eq!(request.method, Method::Post);
    assert_eq!(request.url, "https://clients.plex.tv/api/v2/pins");
    assert_eq!(request.token.as_deref(), Some("acct"));
    assert!(request.query.is_empty());
    assert!(body.strong);
    assert_eq!(body.jwk.kty, "OKP");
    assert_eq!(body.jwk.crv, "Ed25519");
    assert_eq!(body.jwk.alg, "EdDSA");
    assert_eq!(body.jwk.kid, "kid-9");
    assert_eq!(body.jwk.x, k.public_key_b64());
    assert_eq!(body.jwk.x.len(), 43);
    let (_, weak) = c.request_pin(false, &k);
    assert!(!weak.strong);
}

#[test]
fn poll_pin_at_fixed_time() {
    let c = Client::builder().client_identifier("client-1").build().unwrap();
    let k = DeviceKeypair::from_bytes(&[5u8; 32], "kid");
    let request = c.poll_pin_at(1234, &k, 1700000000);
    assert_eq!(request.method, Method::Get);
    assert!(request.token.is_none());
    assert!(request.query.is_empty());
    let prefix = "https://clients.plex.tv/api/v2/pins/1234?deviceJWT=";
    assert!(request.url.starts_with(prefix));
    let jwt = urlencoding::decode(&request.url[prefix.len()..]).unwrap().into_owned();
    let parts: Vec<&str> = jwt.split('.').collect();
    assert_eq!(parts.len(), 3);
    assert_eq!(
        String::from_utf8(b64(parts[1])).unwrap(),
        "{\"aud\":\"plex.tv\",\"iss\":\"client-1\",\"iat\":1700000000,\"exp\":1700003600}"
    );
    // the dots of the token are kept by the encoding
    assert_eq!(&request.url[prefix.len()..], jwt);
}

#[test]
fn poll_pin_now_is_recent() {
    let c = Client::builder().client_identifier("client-1").build().unwrap();
    let k = DeviceKeypair::from_bytes(&[5u8; 32], "kid");
    let request = c.poll_pin(0, &k).unwrap();
    let jwt = request.url.strip_prefix("https://clients.plex.tv/api/v2/pins/0?deviceJWT=").unwrap();
    let claims = String::from_utf8(b64(jwt.split('.').nth(1).unwrap())).unwrap();
    let iat_pos = claims.find("\"iat\":").unwrap() + 6;
    let iat: i64 = claims[iat_pos..].split(',').next().unwrap().parse().unwrap();
    assert!(iat > 1_600_000_000);
    assert!(claims.contains(&format!("\"exp\":{}", iat + 3600)));
}

#[test]
fn nonce_request_asks_clients_host() {
    let c = Client::builder().client_identifier("client-1").token("acct").build().unwrap();
    let request = c.nonce_request();
    assert_eq!(request.method, Method::Get);
    assert_eq!(request.url, "https://clients.plex.tv/api/v2/auth/nonce");
    assert_eq!(request.token.as_deref(), Some("acct"));
    assert!(request.query.is_empty());
}

#[test]
fn refresh_token_has_nonce_and_scope() {
    let c = Client::builder().client_identifier("client-1").build().unwrap();
    let k = DeviceKeypair::from_bytes(&[5u8; 32], "kid");
    let nonce = NonceResponse { nonce: "n-1".to_string() };
    let (request, body) = c.refresh_token_at(&k, &nonce, "username,email,friendly_name", 10);
    assert_eq!(request.method, Method::Post);
    assert_eq!(request.url, "https://clients.plex.tv/api/v2/auth/token");
    assert!(request.token.is_none());
    let parts: Vec<&str> = body.jwt.split('.').collect();
    assert_eq!(
        String::from_utf8(b64(parts[1])).unwrap(),
        "{\"aud\":\"plex.tv\",\"iss\":\"client-1\",\"iat\":10,\"exp\":3610,\"nonce\":\"n-1\",\"scope\":\"username,email,friendly_name\"}"
    );
    let (now_request, now_body) = c.refresh_token(&k, &nonce, "s").unwrap();
    assert_eq!(now_request.url, "https://clients.plex.tv/api/v2/auth/token");
    assert_eq!(now_body.jwt.split('.').count(), 3);
}

#[test]
fn clock_readings_within_chrono_range_are_used() {
    assert_eq!(unix_seconds_from_reading(Some(1_700_000_000)), Some(1_700_000_000));
    assert_eq!(unix_seconds_from_reading(Some(0)), Some(0));
    let last = (MAX_UNIX_SECONDS - 3600) as u64;
    assert_eq!(unix_seconds_from_reading(Some(last)), Some(last as i64));
    // an hour later would be past the last date chrono can hold
    assert_eq!(unix_seconds_from_reading(Some(last + 1)), None);
    assert_eq!(unix_seconds_from_reading(Some(u64::MAX)), None);
    assert_eq!(unix_seconds_from_reading(Some(i64::MAX as u64)), None);
    // a clock before the epoch
    assert_eq!(unix_seconds_from_reading(None), None);
}

#[test]
fn failure_statuses_become_api_errors() {
    assert!(is_success_status(200));
    assert!(is_success_status(204));
    assert!(is_success_status(299));
    assert!(!is_success_status(199));
    assert!(!is_success_status(300));
    assert!(!is_success_status(404));
    match api_error(404, Some("not here".to_string())) {
        Error::Api { status, message } => {
            assert_eq!(status, 404);
            assert_eq!(message, "not here");
        }
        other => panic!("unexpected {:?}", other),
    }
    match api_error(500, None) {
        Error::Api { status, message } => {
            assert_eq!(status, 500);
            assert_eq!(message, "Unknown error");
        }
        other => panic!("unexpected {:?}", other),
    }
}
