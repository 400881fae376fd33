use plex_client::error::{Error, NetworkError};

fn net(connect: bool, timeout: bool, status: bool, decode: bool, builder: bool, redirect: bool) -> Error {
    Error::Network(NetworkError {
        message: "x".to_string(),
        is_connect: connect,
        is_timeout: timeout,
        has_status: status,
        is_decode: decode,
        is_builder: builder,
        is_redirect: redirect,
    })
}

#[test]
fn connect_and_timeout_are_transport_failures() {
    assert!(net(true, false, true, false, false, false).is_transport_failure());
    assert!(net(false, true, true, true, false, false).is_transport_failure());
}

#[test]
fn statusless_plain_failure_is_transport_failure() {
    assert!(net(false, false, false, false, false, false).is_transport_failure());
}

#[test]
fn answered_or_local_failures_are_not_transport_failures() {
    assert!(!net(false, false, true, false, false, false).is_transport_failure());
    assert!(!net(false, false, false, true, false, false).is_transport_failure());
    assert!(!net(false, false, false, false, true, false).is_transport_failure());
    assert!(!net(false, false, false, false, false, true).is_transport_failure());
}

#[test]
fn other_errors_are_not_transport_failures() {
    assert!(!Error::Generic("g".to_string()).is_transport_failure());
    assert!(!Error::Api { status: 502, message: "bad gateway".to_string() }.is_transport_failure());
    assert!(!Error::InvalidHeaderValue.is_transport_failure());
    assert!(!Error::ServerRefreshFailed.is_transport_failure());
}
