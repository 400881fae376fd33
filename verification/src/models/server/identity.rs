use vstd::prelude::*;

verus! {

/// What a media server says about itself.
#[derive(Debug, Clone)]
pub struct Identity {
    pub size: u8,
    pub claimed: bool,
    pub machine_identifier: String,
    pub version: String,
}

} // verus!
