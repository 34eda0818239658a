//! The HTTP status codes that the converter answers with.

use vstd::prelude::*;

verus! {

/// 401: the keys asked for are not available to the asking SAE.
pub const UNAUTHORIZED: u16 = 401;

/// 404: the remote SAE is not known.
pub const NOT_FOUND: u16 = 404;

/// 500: the key provider could not be asked or did not answer usably.
pub const INTERNAL_SERVER_ERROR: u16 = 500;

} // verus!
