//! Request and response bodies of the ETSI GS QKD 014 key-delivery API.

use vstd::prelude::*;

verus! {

/// Declares `serde_json::Value`, carried opaquely in the extension fields of a key
/// request; nothing is known of what a value holds.
#[verifier::external_type_specification]
#[verifier::external_body]
pub struct ExJsonValue(serde_json::Value);

/// The keys delivered to an SAE.
pub struct KeyContainer {
    pub keys: Vec<Key>,
}

/// One key and its identifier.
#[allow(non_snake_case)]
pub struct Key {
    pub key_ID: String,
    pub key: String,
}

/// The status of the key supply between a master and a slave SAE.
#[allow(non_snake_case)]
pub struct Status {
    pub source_KME_ID: String,
    pub target_KME_ID: String,
    pub master_SAE_ID: String,
    pub slave_SAE_ID: String,
    pub key_size: usize,
    pub stored_key_count: usize,
    pub max_key_count: usize,
    pub max_key_per_request: usize,
    pub max_key_size: usize,
    pub min_key_size: usize,
    pub max_SAE_ID_count: usize,
}

/// Parameters of a "get key" request given in the query or body.
pub struct GetKey {
    pub number: Option<usize>,
    pub size: Option<usize>,
}

/// The full "key request" body of the API.
#[allow(non_snake_case)]
pub struct KeyRequest {
    pub number: Option<usize>,
    pub size: Option<usize>,
    pub additional_slave_SAE_IDs: Option<Vec<String>>,
    pub extension_mandatory: Option<serde_json::Value>,
    pub extension_optional: Option<serde_json::Value>,
}

/// A key identifier that a slave SAE asks for.
#[allow(non_snake_case)]
pub struct GetKeyWithId {
    pub key_ID: String,
}

/// The key identifiers that a slave SAE asks for.
#[allow(non_snake_case)]
pub struct GetKeysWithId {
    pub key_IDs: Vec<GetKeyWithId>,
}

/// An encryption-key request: how many keys, and of which size if one was given.
pub struct EncKeyRequest {
    pub number: usize,
    pub size: Option<usize>,
}

/// The number of keys asked for: one when none was given.
pub open spec fn requested_number(number: Option<usize>) -> usize {
    match number {
        Some(n) => n,
        None => 1,
    }
}

impl From<GetKey> for EncKeyRequest {
    fn from(value: GetKey) -> (res: Self) {
        EncKeyRequest {
            number: match value.number {
                Some(n) => n,
                None => 1,
            },
            size: value.size,
        }
    }
}

impl vstd::std_specs::convert::FromSpecImpl<GetKey> for EncKeyRequest {
    open spec fn obeys_from_spec() -> bool {
        true
    }

    open spec fn from_spec(v: GetKey) -> Self {
        EncKeyRequest { number: requested_number(v.number), size: v.size }
    }
}

impl From<KeyRequest> for EncKeyRequest {
    fn from(value: KeyRequest) -> (res: Self) {
        EncKeyRequest {
            number: match value.number {
                Some(n) => n,
                None => 1,
            },
            size: value.size,
        }
    }
}

impl vstd::std_specs::convert::FromSpecImpl<KeyRequest> for EncKeyRequest {
    open spec fn obeys_from_spec() -> bool {
        true
    }

    open spec fn from_spec(v: KeyRequest) -> Self {
        EncKeyRequest { number: requested_number(v.number), size: v.size }
    }
}

/// The key identifiers of a request, in order.
pub open spec fn requested_ids(request: &GetKeysWithId) -> Seq<Seq<char>> {
    request.key_IDs@.map_values(|k: GetKeyWithId| k.key_ID@)
}

impl GetKeysWithId {
    /// A request for a single key identifier.
    pub fn single(key_id: GetKeyWithId) -> (res: Self)
        ensures
            res.key_IDs@.len() == 1,
            res.key_IDs@[0] == key_id,
    {
        let mut key_IDs = Vec::new();
        key_IDs.push(key_id);
        GetKeysWithId { key_IDs }
    }
}

} // verus!
