//! Decisions of the converter's peer-facing RPC service.

use vstd::prelude::*;

use crate::converter::context::{EtsiToSkipContext, SaePair};
use crate::text::{ascii_chars, header_text, is_visible_ascii};

verus! {

/// Why an RPC of a peer converter is refused.
pub enum RpcRejection {
    /// The peer has not made itself known yet.
    FailedPrecondition(String),
    /// The peer did not say who it is, or which SAE pair it speaks for.
    Unauthenticated(String),
}

/// Whether a metadata value can be read as text.
pub open spec fn readable(bytes: Seq<u8>) -> bool {
    forall|i: int| 0 <= i < bytes.len() ==> is_visible_ascii(#[trigger] bytes[i])
}

/// Reads the key provider of a calling peer from the `key_provider` metadata value.
pub fn key_provider_intercept(key_provider: Option<&[u8]>) -> (res: Result<String, RpcRejection>)
    ensures
        match key_provider {
            None => res matches Err(RpcRejection::Unauthenticated(m)) && m@ == "No key provider ID"@,
            Some(b) => if readable(b@) {
                res matches Ok(id) && id@ == ascii_chars(b@)
            } else {
                res matches Err(RpcRejection::Unauthenticated(m)) && m@ == "Malformed key provider ID"@
            },
        },
{
    match key_provider {
        None => Err(RpcRejection::Unauthenticated(String::from_str("No key provider ID"))),
        Some(b) => match header_text(b) {
            Some(id) => Ok(id),
            None => Err(RpcRejection::Unauthenticated(String::from_str("Malformed key provider ID"))),
        },
    }
}

/// Admits a new-keys call of the peer whose key provider is `provider_id`: the peer
/// must be registered, and the `master_sae_id` and `slave_sae_id` metadata values
/// must be present and readable; they make the SAE pair of the keys.
pub fn accept_new_keys<C>(
    ctx: &EtsiToSkipContext<C>,
    provider_id: &String,
    master_sae_id: Option<&[u8]>,
    slave_sae_id: Option<&[u8]>,
) -> (res: Result<SaePair, RpcRejection>)
    ensures
        !ctx.clients().contains_key(provider_id@) ==> (res matches Err(RpcRejection::FailedPrecondition(m))
            && m@ == "Peer hasn't sent a get_connected_sae request."@),
        ctx.clients().contains_key(provider_id@) ==> match (master_sae_id, slave_sae_id) {
            (Some(m), Some(s)) => if readable(m@) && readable(s@) {
                res matches Ok(pair) && pair.0@ == ascii_chars(m@) && pair.1@ == ascii_chars(s@)
            } else {
                res matches Err(RpcRejection::Unauthenticated(msg)) && msg@ == "No SAE ID pair provided."@
            },
            _ => res matches Err(RpcRejection::Unauthenticated(msg)) && msg@ == "No SAE ID pair provided."@,
        },
{
    if !ctx.has_peer(provider_id) {
        return Err(RpcRejection::FailedPrecondition(String::from_str("Peer hasn't sent a get_connected_sae request.")));
    }
    let master = match master_sae_id {
        Some(b) => header_text(b),
        None => None,
    };
    let slave = match slave_sae_id {
        Some(b) => header_text(b),
        None => None,
    };
    match (master, slave) {
        (Some(id0), Some(id1)) => Ok((id0, id1)),
        _ => Err(RpcRejection::Unauthenticated(String::from_str("No SAE ID pair provided."))),
    }
}

} // verus!
