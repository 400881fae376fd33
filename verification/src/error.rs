use vstd::prelude::*;

verus! {

/// What the library keeps of a failed HTTP exchange: the transport's message
/// and the facts about the failure that decide whether another connection is
/// worth trying.
#[derive(Debug)]
pub struct NetworkError {
    pub message: String,
    pub is_connect: bool,
    pub is_timeout: bool,
    /// Whether the failure carries an HTTP status code.
    pub has_status: bool,
    pub is_decode: bool,
    pub is_builder: bool,
    pub is_redirect: bool,
}

/// The errors of this library.
#[derive(Debug)]
pub enum Error {
    Network(NetworkError),
    Serialization(String),
    UrlParse(String),
    InvalidHeaderValue,
    Api { status: u16, message: String },
    Io(String),
    ServerRefreshFailed,
    ServerNotFound(String),
    Generic(String),
}

/// A failure of the transport itself (the peer could not be reached, or the
/// exchange broke off) as opposed to an answer that was received.
pub open spec fn is_transport_failure_spec(e: Error) -> bool {
    match e {
        Error::Network(n) => n.is_connect || n.is_timeout || (!n.has_status && !n.is_decode
            && !n.is_builder && !n.is_redirect),
        _ => false,
    }
}

impl Error {
    /// Whether the error says that the connection could not be used at all,
    /// so that another connection to the same server may succeed.
    pub fn is_transport_failure(&self) -> (r: bool)
        ensures
            r == is_transport_failure_spec(*self),
    {
        match self {
            Error::Network(e) => e.is_connect || e.is_timeout || (!e.has_status && !e.is_decode
                && !e.is_builder && !e.is_redirect),
            _ => false,
        }
    }
}

} // verus!
