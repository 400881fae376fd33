use vstd::prelude::*;

pub mod identity;

pub use identity::Identity;

verus! {

/// The envelope around every answer of a media server.
#[derive(Debug, Clone)]
pub struct MediaContainer<T> {
    pub media_container: T,
}

} // verus!
