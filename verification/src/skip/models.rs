//! Response bodies of the Cisco SKIP key-provider API.

use vstd::prelude::*;

verus! {

/// What a SKIP key provider offers, and which system it is.
#[allow(non_snake_case)]
pub struct Capabilities {
    pub entropy: bool,
    pub key: bool,
    pub algorithm: String,
    pub localSystemID: String,
    pub remoteSystemID: Vec<String>,
}

/// A key handed out by a SKIP key provider, with its identifier.
#[allow(non_snake_case)]
pub struct Key {
    pub keyId: String,
    pub key: String,
}

} // verus!
