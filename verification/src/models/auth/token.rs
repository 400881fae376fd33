use vstd::prelude::*;

verus! {

/// The answer to a token request.
#[derive(Debug, Clone)]
pub struct TokenResponse {
    pub auth_token: String,
}

/// A one-time nonce to be signed into a token request.
#[derive(Debug, Clone)]
pub struct NonceResponse {
    pub nonce: String,
}

} // verus!
