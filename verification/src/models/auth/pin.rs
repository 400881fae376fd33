use vstd::prelude::*;

verus! {

/// A point in time in UTC: whole seconds since the Unix epoch and the
/// nanoseconds within that second.
#[derive(Debug, Clone, Copy, PartialEq, Eq)]
pub struct Timestamp {
    pub seconds: i64,
    pub nanos: u32,
}

/// A linking PIN handed out by plex.tv.
#[derive(Debug, Clone)]
pub struct PinResponse {
    pub id: u64,
    pub code: String,
    pub product: String,
    pub trusted: bool,
    pub qr: String,
    pub client_identifier: String,
    pub location: PinLocation,
    pub expires_in: u64,
    pub created_at: Timestamp,
    pub expires_at: Timestamp,
    /// Present once the user has approved the PIN.
    pub auth_token: Option<String>,
    pub new_registration: Option<bool>,
}

/// Where plex.tv places the device that asked for a PIN.
#[derive(Debug, Clone)]
pub struct PinLocation {
    pub code: String,
    pub european_union_member: bool,
    pub continent_code: String,
    pub country: String,
    pub city: String,
    pub time_zone: String,
    pub postal_code: String,
    pub in_privacy_restricted_country: bool,
    pub in_privacy_restricted_region: bool,
    pub subdivisions: String,
    pub coordinates: String,
}

} // verus!
