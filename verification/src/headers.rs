use vstd::prelude::*;

verus! {

/// Header carrying the identifier of this client installation.
pub const CLIENT_ID: &'static str = "X-Plex-Client-Identifier";

/// Header carrying the account or server access token.
pub const TOKEN: &'static str = "X-Plex-Token";

pub const PRODUCT: &'static str = "X-Plex-Product";

pub const VERSION: &'static str = "X-Plex-Version";

pub const PLATFORM: &'static str = "X-Plex-Platform";

pub const PLATFORM_VERSION: &'static str = "X-Plex-Platform-Version";

pub const DEVICE: &'static str = "X-Plex-Device";

pub const DEVICE_VENDOR: &'static str = "X-Plex-Device-Vendor";

pub const DEVICE_NAME: &'static str = "X-Plex-Device-Name";

pub const MODEL: &'static str = "X-Plex-Model";

pub const MARKETPLACE: &'static str = "X-Plex-Marketplace";

} // verus!
