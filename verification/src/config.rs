//! Configuration values that the converter's logic reads.

use vstd::prelude::*;

verus! {

/// Declares `std::path::PathBuf`, a file path carried opaquely in the configuration.
#[verifier::external_type_specification]
#[verifier::external_body]
pub struct ExPathBuf(std::path::PathBuf);

/// A pre-shared key and its identity, for TLS-PSK with the key provider.
pub struct Psk {
    pub id: Vec<u8>,
    pub key: Vec<u8>,
}

/// How the converter authenticates the SKIP key provider.
pub enum SkipAuth {
    /// By a root certificate, read from this file.
    RootCertificate(std::path::PathBuf),
    /// By a pre-shared key.
    Psk(Psk),
}

/// Copies `src` into the front of `dst`.
fn copy_prefix(dst: &mut [u8], src: &Vec<u8>)
    requires
        src@.len() <= old(dst)@.len(),
    ensures
        final(dst)@ == src@ + old(dst)@.subrange(src@.len() as int, old(dst)@.len() as int),
{
    let ghost initial = dst@;
    let mut i: usize = 0;
    while i < src.len()
        invariant
            i <= src@.len(),
            src@.len() <= initial.len(),
            dst@.len() == initial.len(),
            dst@ == src@.subrange(0, i as int) + initial.subrange(i as int, initial.len() as int),
        decreases src@.len() - i,
    {
        dst[i] = src[i];
        assert(dst@ =~= src@.subrange(0, i + 1) + initial.subrange(i + 1, initial.len() as int));
        i = i + 1;
    }
    assert(src@.subrange(0, src@.len() as int) =~= src@);
}

impl Psk {
    /// Fills the buffers of a TLS-PSK client callback: the identity followed by a
    /// zero byte, and the key; returns the length of the key.
    pub fn write_client_credentials(&self, identity: &mut [u8], key: &mut [u8]) -> (res: usize)
        requires
            self.id@.len() < old(identity)@.len(),
            self.key@.len() <= old(key)@.len(),
        ensures
            final(identity)@ == self.id@ + seq![0u8] + old(identity)@.subrange(
                (self.id@.len() + 1) as int,
                old(identity)@.len() as int,
            ),
            final(key)@ == self.key@ + old(key)@.subrange(self.key@.len() as int, old(key)@.len() as int),
            res == self.key@.len(),
    {
        let ghost initial = identity@;
        copy_prefix(identity, &self.id);
        let n = self.id.len();
        identity[n] = 0;
        assert(identity@ =~= self.id@ + seq![0u8] + initial.subrange(n + 1, initial.len() as int));
        copy_prefix(key, &self.key);
        self.key.len()
    }
}

} // verus!
