//! Messages exchanged between two converters.

use vstd::prelude::*;

verus! {

/// The identifier of a key that the sending converter handed to one of its SAEs.
pub struct NewKey {
    pub id: String,
}

/// The identifier of an SAE that a converter serves.
pub struct SaeId {
    pub id: String,
}

} // verus!
