//! The ETSI GS QKD 014 side: requests handed to the converter, and the
//! identification of the SAE behind a client certificate.

pub mod models;

use vstd::prelude::*;
use x509_parser::prelude::{GeneralName, ParsedExtension};

use crate::collections::StringSet;
use crate::etsi014::models::{EncKeyRequest, GetKeysWithId};
use crate::text::{format_ipv4, ipv4_text};

verus! {

/// A request of an SAE, handed to the converter. `S` answers a status request,
/// `K` a key request.
pub struct E014ConverterRequest<S, K> {
    pub sae_id: String,
    pub remote_sae_id: String,
    pub req: E014ConverterRequestInner<S, K>,
}

/// What an SAE asks for, with the channel on which the answer goes back.
pub enum E014ConverterRequestInner<S, K> {
    Status(S),
    EncKey(K, EncKeyRequest),
    DecKey(K, GetKeysWithId),
}

impl<S, K> E014ConverterRequest<S, K> {
    pub fn new(req: E014ConverterRequestInner<S, K>, sae_id: String, remote_sae_id: String) -> (res: Self)
        ensures
            res.req == req,
            res.sae_id == sae_id,
            res.remote_sae_id == remote_sae_id,
    {
        E014ConverterRequest { sae_id, remote_sae_id, req }
    }
}

/// A general name of a subject-alternative-name extension, as far as the
/// converter reads it.
pub enum SanName {
    Dns(String),
    Email(String),
    Uri(String),
    IpAddress(Vec<u8>),
    Other,
}

/// The mathematical value of a [`SanName`].
pub enum SanNameView {
    Dns(Seq<char>),
    Email(Seq<char>),
    Uri(Seq<char>),
    IpAddress(Seq<u8>),
    Other,
}

impl View for SanName {
    type V = SanNameView;

    open spec fn view(&self) -> SanNameView {
        match self {
            SanName::Dns(s) => SanNameView::Dns(s@),
            SanName::Email(s) => SanNameView::Email(s@),
            SanName::Uri(s) => SanNameView::Uri(s@),
            SanName::IpAddress(b) => SanNameView::IpAddress(b@),
            SanName::Other => SanNameView::Other,
        }
    }
}

/// The identity of an SAE read from its certificate: text, or the octets of an
/// IPv6 address still to be written out.
pub enum SaeName {
    Text(String),
    Ipv6(Vec<u8>),
}

/// The mathematical value of a [`SaeName`].
pub enum SaeNameView {
    Text(Seq<char>),
    Ipv6(Seq<u8>),
}

impl View for SaeName {
    type V = SaeNameView;

    open spec fn view(&self) -> SaeNameView {
        match self {
            SaeName::Text(s) => SaeNameView::Text(s@),
            SaeName::Ipv6(b) => SaeNameView::Ipv6(b@),
        }
    }
}

/// The extensions of a certificate: for each, in order, its general names when it
/// is a subject-alternative-name extension.
pub open spec fn extensions_view(exts: Seq<Option<Vec<SanName>>>) -> Seq<Option<Seq<SanNameView>>> {
    exts.map_values(
        |e: Option<Vec<SanName>>|
            match e {
                Some(names) => Some(names@.map_values(|n: SanName| n@)),
                None => None,
            },
    )
}

/// Names what `x509_parser::parse_x509_certificate` makes of DER bytes: `None` when
/// they are no certificate, else one entry per extension, in order, holding the
/// general names of a subject-alternative-name extension and nothing for the others.
pub uninterp spec fn certificate_san_names(der: Seq<u8>) -> Option<Seq<Option<Seq<SanNameView>>>>;

/// Parses a DER certificate with `x509_parser::parse_x509_certificate` and lists,
/// per extension, the general names of a subject-alternative-name extension. The
/// contract only ties the result to the name [`certificate_san_names`] of the bytes.
#[verifier::external_body]
fn parse_certificate_san_names(der: &[u8]) -> (res: Option<Vec<Option<Vec<SanName>>>>)
    ensures
        match res {
            Some(exts) => certificate_san_names(der@) == Some(extensions_view(exts@)),
            None => certificate_san_names(der@) is None,
        },
{
    let (_, cert) = x509_parser::parse_x509_certificate(der).ok()?;
    Some(cert.extensions().iter().map(|ext| match ext.parsed_extension() {
        ParsedExtension::SubjectAlternativeName(san) => Some(san.general_names.iter().map(|name| match name {
            GeneralName::DNSName(s) => SanName::Dns(s.to_string()),
            GeneralName::RFC822Name(s) => SanName::Email(s.to_string()),
            GeneralName::URI(s) => SanName::Uri(s.to_string()),
            GeneralName::IPAddress(b) => SanName::IpAddress(b.to_vec()),
            _ => SanName::Other,
        }).collect()),
        _ => None,
    }).collect())
}

/// The SAE identity that one general name gives, if any: a DNS name, an e-mail
/// address or a URI as it stands, and an IPv4 or IPv6 address of the right length.
pub open spec fn sae_name_of(name: SanNameView) -> Option<SaeNameView> {
    match name {
        SanNameView::Dns(s) => Some(SaeNameView::Text(s)),
        SanNameView::Email(s) => Some(SaeNameView::Text(s)),
        SanNameView::Uri(s) => Some(SaeNameView::Text(s)),
        SanNameView::IpAddress(b) => if b.len() == 4 {
            Some(SaeNameView::Text(ipv4_text(b[0], b[1], b[2], b[3])))
        } else if b.len() == 16 {
            Some(SaeNameView::Ipv6(b))
        } else {
            None
        },
        SanNameView::Other => None,
    }
}

/// The first SAE identity among `names[i..]`.
pub open spec fn first_sae_name_from(names: Seq<SanNameView>, i: int) -> Option<SaeNameView>
    decreases names.len() - i,
{
    if i < 0 || i >= names.len() {
        None
    } else {
        match sae_name_of(names[i]) {
            Some(n) => Some(n),
            None => first_sae_name_from(names, i + 1),
        }
    }
}

/// The first SAE identity in the extensions `exts[k..]`, in order of extensions and
/// then of names.
pub open spec fn first_sae_name_in(exts: Seq<Option<Seq<SanNameView>>>, k: int) -> Option<SaeNameView>
    decreases exts.len() - k,
{
    if k < 0 || k >= exts.len() {
        None
    } else {
        match exts[k] {
            Some(names) => match first_sae_name_from(names, 0) {
                Some(n) => Some(n),
                None => first_sae_name_in(exts, k + 1),
            },
            None => first_sae_name_in(exts, k + 1),
        }
    }
}

/// The identity is taken from the first usable name, wherever it stands: when
/// `names[j]` gives an identity and no name before it does, that is the result; when
/// no name gives one, there is none.
pub proof fn law_first_usable_name(names: Seq<SanNameView>, j: int)
    ensures
        0 <= j < names.len() && sae_name_of(names[j]) is Some
            && (forall|i: int| 0 <= i < j ==> sae_name_of(#[trigger] names[i]) is None)
            ==> first_sae_name_from(names, 0) == sae_name_of(names[j]),
        (forall|i: int| 0 <= i < names.len() ==> sae_name_of(#[trigger] names[i]) is None)
            ==> first_sae_name_from(names, 0) is None,
{
    lemma_first_usable_from(names, 0, j);
    lemma_no_usable_from(names, 0);
}

proof fn lemma_first_usable_from(names: Seq<SanNameView>, i: int, j: int)
    requires
        0 <= i,
    ensures
        i <= j < names.len() && sae_name_of(names[j]) is Some
            && (forall|m: int| i <= m < j ==> sae_name_of(#[trigger] names[m]) is None)
            ==> first_sae_name_from(names, i) == sae_name_of(names[j]),
    decreases names.len() - i,
{
    if i < names.len() && i < j {
        lemma_first_usable_from(names, i + 1, j);
    }
}

proof fn lemma_no_usable_from(names: Seq<SanNameView>, i: int)
    requires
        0 <= i,
    ensures
        (forall|m: int| i <= m < names.len() ==> sae_name_of(#[trigger] names[m]) is None)
            ==> first_sae_name_from(names, i) is None,
    decreases names.len() - i,
{
    if i < names.len() {
        lemma_no_usable_from(names, i + 1);
    }
}

/// Across extensions, the identity is taken from the first extension whose names
/// give one: when extension `k` is a subject-alternative-name extension whose names
/// give an identity and no extension before it gives one, that is the result.
pub proof fn law_first_usable_extension(exts: Seq<Option<Seq<SanNameView>>>, k: int)
    ensures
        0 <= k < exts.len() && exts[k] is Some && first_sae_name_from(exts[k]->0, 0) is Some
            && (forall|m: int| 0 <= m < k ==> #[trigger] exts[m] is None || first_sae_name_from(exts[m]->0, 0) is None)
            ==> first_sae_name_in(exts, 0) == first_sae_name_from(exts[k]->0, 0),
{
    lemma_first_usable_extension_from(exts, 0, k);
}

proof fn lemma_first_usable_extension_from(exts: Seq<Option<Seq<SanNameView>>>, i: int, k: int)
    requires
        0 <= i,
    ensures
        i <= k < exts.len() && exts[k] is Some && first_sae_name_from(exts[k]->0, 0) is Some
            && (forall|m: int| i <= m < k ==> #[trigger] exts[m] is None || first_sae_name_from(exts[m]->0, 0) is None)
            ==> first_sae_name_in(exts, i) == first_sae_name_from(exts[k]->0, 0),
    decreases exts.len() - i,
{
    if i < exts.len() && i < k {
        lemma_first_usable_extension_from(exts, i + 1, k);
    }
}

fn sae_name_of_exec(name: &SanName) -> (res: Option<SaeName>)
    ensures
        match res {
            Some(n) => sae_name_of(name@) == Some(n@),
            None => sae_name_of(name@) is None,
        },
{
    match name {
        SanName::Dns(s) => Some(SaeName::Text(s.clone())),
        SanName::Email(s) => Some(SaeName::Text(s.clone())),
        SanName::Uri(s) => Some(SaeName::Text(s.clone())),
        SanName::IpAddress(b) => {
            if b.len() == 4 {
                Some(SaeName::Text(format_ipv4(b[0], b[1], b[2], b[3])))
            } else if b.len() == 16 {
                let mut octets: Vec<u8> = Vec::new();
                let mut i: usize = 0;
                while i < 16
                    invariant
                        i <= 16,
                        b@.len() == 16,
                        octets@ == b@.subrange(0, i as int),
                    decreases 16 - i,
                {
                    octets.push(b[i]);
                    i = i + 1;
                }
                assert(octets@ =~= b@);
                Some(SaeName::Ipv6(octets))
            } else {
                None
            }
        },
        SanName::Other => None,
    }
}

/// Picks the SAE identity of a certificate from its extensions: the first general
/// name, in order, that is a DNS name, an e-mail address, a URI, or an IP address
/// of 4 or 16 octets.
pub fn select_sae_name(exts: &Vec<Option<Vec<SanName>>>) -> (res: Option<SaeName>)
    ensures
        match res {
            Some(n) => first_sae_name_in(extensions_view(exts@), 0) == Some(n@),
            None => first_sae_name_in(extensions_view(exts@), 0) is None,
        },
{
    let ghost ev = extensions_view(exts@);
    let mut k: usize = 0;
    while k < exts.len()
        invariant
            k <= exts@.len(),
            ev == extensions_view(exts@),
            ev.len() == exts@.len(),
            first_sae_name_in(ev, 0) == first_sae_name_in(ev, k as int),
        decreases exts@.len() - k,
    {
        match &exts[k] {
            Some(names) => {
                let ghost nv = names@.map_values(|n: SanName| n@);
                assert(ev[k as int] == Some(nv));
                let mut i: usize = 0;
                while i < names.len()
                    invariant
                        i <= names@.len(),
                        nv == names@.map_values(|n: SanName| n@),
                        first_sae_name_from(nv, 0) == first_sae_name_from(nv, i as int),
                        k < exts@.len(),
                        ev == extensions_view(exts@),
                        ev.len() == exts@.len(),
                        ev[k as int] == Some(nv),
                        first_sae_name_in(ev, 0) == first_sae_name_in(ev, k as int),
                    decreases names@.len() - i,
                {
                    let found = sae_name_of_exec(&names[i]);
                    assert(nv[i as int] == names@[i as int]@);
                    match found {
                        Some(n) => {
                            assert(first_sae_name_from(nv, i as int) == Some(n@));
                            assert(first_sae_name_from(nv, 0) == Some(n@));
                            assert(first_sae_name_in(ev, k as int) == Some(n@));
                            return Some(n);
                        },
                        None => {},
                    }
                    i = i + 1;
                }
            },
            None => {},
        }
        k = k + 1;
    }
    None
}

/// Reads the SAE identity that a DER client certificate carries in its
/// subject-alternative-name extensions; `None` when it does not parse or holds none.
pub fn extract_sae_id(cert_der: &[u8]) -> (res: Option<SaeName>)
    ensures
        match certificate_san_names(cert_der@) {
            Some(exts) => match res {
                Some(n) => first_sae_name_in(exts, 0) == Some(n@),
                None => first_sae_name_in(exts, 0) is None,
            },
            None => res is None,
        },
{
    match parse_certificate_san_names(cert_der) {
        Some(exts) => select_sae_name(&exts),
        None => None,
    }
}

/// The refusal of a connection whose SAE is not served here.
pub struct InvalidSaeId;

/// Admits an SAE identity only when it is one of the SAEs served here.
pub fn authorize_sae(valid_sae: &StringSet, sae_id: Option<String>) -> (res: Result<String, InvalidSaeId>)
    ensures
        match sae_id {
            Some(id) => match res {
                Ok(s) => valid_sae@.contains(id@) && s == id,
                Err(_) => !valid_sae@.contains(id@),
            },
            None => res is Err,
        },
{
    match sae_id {
        Some(id) => {
            if valid_sae.contains(&id) {
                Ok(id)
            } else {
                Err(InvalidSaeId)
            }
        },
        None => Err(InvalidSaeId),
    }
}

} // verus!
