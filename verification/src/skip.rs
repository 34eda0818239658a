//! Requests to a Cisco SKIP key provider: the URIs the converter asks.

pub mod models;

use vstd::prelude::*;

use crate::status::INTERNAL_SERVER_ERROR;
use crate::text::{decimal, push_decimal};

verus! {

/// Declares `hyper::Uri` (the `http` crate's URI), handed to the I/O side opaquely.
#[verifier::external_type_specification]
#[verifier::external_body]
pub struct ExUri(hyper::Uri);

/// The path and query that asks for a new key shared with `remote_system_id`,
/// of `size` bits when a size is given.
pub open spec fn key_path(remote_system_id: Seq<char>, size: Option<usize>) -> Seq<char> {
    "/key?remoteSystemId="@ + remote_system_id + match size {
        Some(n) => "&size="@ + decimal(n as nat),
        None => Seq::<char>::empty(),
    }
}

/// A new-key request names the remote system after `/key?remoteSystemId=`; when a
/// size is given, and whatever it is, the path goes on with `&size=` and the size's
/// decimal numeral, and with nothing else.
pub proof fn law_key_path_carries_size(remote_system_id: Seq<char>, n: usize)
    ensures
        key_path(remote_system_id, None) == "/key?remoteSystemId="@ + remote_system_id,
        key_path(remote_system_id, Some(n)) == key_path(remote_system_id, None) + "&size="@ + decimal(n as nat),
{
    assert(key_path(remote_system_id, None) =~= "/key?remoteSystemId="@ + remote_system_id);
}

/// The path and query that asks for the key `key_id` that `remote_system_id` drew.
pub open spec fn peer_key_path(remote_system_id: Seq<char>, key_id: Seq<char>) -> Seq<char> {
    "/key/"@ + key_id + "?remoteSystemId="@ + remote_system_id
}

/// The path that asks for the capabilities of the key provider.
pub open spec fn capabilities_path() -> Seq<char> {
    "/capabilities"@
}

/// Builds the path and query of a new-key request.
pub fn key_path_and_query(remote_system_id: &str, size: Option<usize>) -> (res: String)
    ensures
        res@ == key_path(remote_system_id@, size),
{
    let mut p = String::new();
    p.append("/key?remoteSystemId=");
    p.append(remote_system_id);
    match size {
        Some(n) => {
            p.append("&size=");
            push_decimal(&mut p, n);
        },
        None => {},
    }
    assert(p@ =~= key_path(remote_system_id@, size));
    p
}

/// Builds the path and query of a request for a key drawn by the peer.
pub fn peer_key_path_and_query(remote_system_id: &str, key_id: &str) -> (res: String)
    ensures
        res@ == peer_key_path(remote_system_id@, key_id@),
{
    let mut p = String::new();
    p.append("/key/");
    p.append(key_id);
    p.append("?remoteSystemId=");
    p.append(remote_system_id);
    assert(p@ =~= peer_key_path(remote_system_id@, key_id@));
    p
}

/// Names what `hyper::Uri::builder()` builds from a scheme, an authority and a path
/// and query: `None` when the builder refuses one of the parts, else the URI
/// `{scheme}://{authority}{path_and_query}`.
pub uninterp spec fn uri_from_parts(scheme: Seq<char>, authority: Seq<char>, path_and_query: Seq<char>) -> Option<hyper::Uri>;

/// Builds a URI from its parts with `hyper::Uri::builder()`. Its result is the name
/// [`uri_from_parts`] of the three parts: the builder is a function of them alone.
#[verifier::external_body]
fn build_uri(scheme: &str, authority: &str, path_and_query: &str) -> (res: Option<hyper::Uri>)
    ensures
        res == uri_from_parts(scheme@, authority@, path_and_query@),
{
    hyper::Uri::builder().scheme(scheme).authority(authority).path_and_query(path_and_query).build().ok()
}

/// The key provider is asked over HTTPS.
pub open spec fn https() -> Seq<char> {
    "https"@
}

/// What a URI builder answers as a request target: the built URI, or 500 when it
/// cannot be built.
pub open spec fn uri_or_internal_error(built: Option<hyper::Uri>) -> Result<hyper::Uri, u16> {
    match built {
        Some(u) => Ok(u),
        None => Err(INTERNAL_SERVER_ERROR),
    }
}

/// The URI of a new-key request to the key provider at `authority`; a URI that
/// cannot be built answers 500.
pub fn key_uri(authority: &str, remote_system_id: &str, size: Option<usize>) -> (res: Result<hyper::Uri, u16>)
    ensures
        res == uri_or_internal_error(uri_from_parts(https(), authority@, key_path(remote_system_id@, size))),
{
    let p = key_path_and_query(remote_system_id, size);
    match build_uri("https", authority, p.as_str()) {
        Some(uri) => Ok(uri),
        None => Err(INTERNAL_SERVER_ERROR),
    }
}

/// The URI of a request for a key that the peer drew; a URI that cannot be built
/// answers 500.
pub fn peer_key_uri(authority: &str, remote_system_id: &str, key_id: &str) -> (res: Result<hyper::Uri, u16>)
    ensures
        res == uri_or_internal_error(uri_from_parts(https(), authority@, peer_key_path(remote_system_id@, key_id@))),
{
    let p = peer_key_path_and_query(remote_system_id, key_id);
    match build_uri("https", authority, p.as_str()) {
        Some(uri) => Ok(uri),
        None => Err(INTERNAL_SERVER_ERROR),
    }
}

/// The URI of a capabilities request; a URI that cannot be built answers 500.
pub fn capabilities_uri(authority: &str) -> (res: Result<hyper::Uri, u16>)
    ensures
        res == uri_or_internal_error(uri_from_parts(https(), authority@, capabilities_path())),
{
    match build_uri("https", authority, "/capabilities") {
        Some(uri) => Ok(uri),
        None => Err(INTERNAL_SERVER_ERROR),
    }
}

} // verus!
