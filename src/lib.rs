//! Client side of a binary key-value cache protocol: a typed value codec,
//! length-prefixed framing, and the request and response bodies of the
//! cache and metadata operations.
pub mod buffer;
pub mod error;
pub mod scalar;
pub mod value;
pub mod network;
pub mod configuration;
pub mod cache;
pub mod record;
pub mod binary;

use vstd::prelude::*;

verus! {

/// A protocol version `(major, minor, patch)`.
#[derive(PartialEq, Eq, Structural, Debug, Clone, Copy)]
pub struct Version {
    pub major: i16,
    pub minor: i16,
    pub patch: i16,
}

pub const VERSION_MAJOR: i16 = 1;
pub const VERSION_MINOR: i16 = 1;
pub const VERSION_PATCH: i16 = 0;

pub open spec fn spec_client_version() -> Version {
    Version { major: VERSION_MAJOR, minor: VERSION_MINOR, patch: VERSION_PATCH }
}

/// The protocol version this client speaks.
pub fn client_version() -> (v: Version)
    ensures
        v == spec_client_version(),
{
    Version { major: VERSION_MAJOR, minor: VERSION_MINOR, patch: VERSION_PATCH }
}

} // verus!
