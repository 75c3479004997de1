//! SHA-256 over a stream of chunks, random bytes, hexadecimal digits, and comparison in constant time.

use crate::server::pairing;
use rand::RngExt;
use sha2::{Digest, Sha256};
use subtle::ConstantTimeEq;
use vstd::prelude::*;

verus! {

/// `sha2::Sha256`, carried through without looking inside.
#[verifier::external_type_specification]
#[verifier::external_body]
pub struct ExSha256(sha2::Sha256);

/// The SHA-256 digest of some bytes.
pub uninterp spec fn sha256_of(bytes: Seq<u8>) -> Seq<u8>;

/// A running SHA-256, together with the bytes that it has been fed.
pub struct Hasher {
    inner: Sha256,
    absorbed: Ghost<Seq<u8>>,
}

impl View for Hasher {
    type V = Seq<u8>;

    closed spec fn view(&self) -> Seq<u8> {
        self.absorbed@
    }
}

impl Hasher {
    /// `Sha256::new`: nothing fed yet.
    #[verifier::external_body]
    pub(crate) fn start() -> (r: Hasher)
        ensures
            r@ == Seq::<u8>::empty(),
    {
        Hasher { inner: Sha256::new(), absorbed: Ghost(Seq::empty()) }
    }

    /// `Sha256::update`: feeds one chunk after what was fed before.
    #[verifier::external_body]
    pub(crate) fn feed(&mut self, chunk: &[u8])
        ensures
            final(self)@ == old(self)@ + chunk@,
    {
        self.inner.update(chunk);
    }

    /// `Sha256::finalize`: the digest of everything that was fed, however it was cut into chunks.
    #[verifier::external_body]
    pub(crate) fn finish(self) -> (r: [u8; 32])
        ensures
            r@ == sha256_of(self@),
    {
        self.inner.finalize().into()
    }
}

/// `rand::rng` filling thirty-two bytes. Nothing is known of them.
#[verifier::external_body]
pub(crate) fn fill_random() -> (r: [u8; 32]) {
    let mut bytes = [0_u8; 32];
    rand::rng().fill(&mut bytes[..]);
    bytes
}

/// `subtle::ConstantTimeEq::ct_eq` on slices: are the bytes the same? How long the answer takes is
/// left unsaid.
#[verifier::external_body]
pub(crate) fn same_bytes(a: &[u8], b: &[u8]) -> (r: bool)
    ensures
        r == (a@ == b@),
{
    bool::from(a.ct_eq(b))
}

/// `hex::encode`: the bytes in small hexadecimal digits, two for each.
#[verifier::external_body]
pub(crate) fn hex_encode(bytes: &[u8]) -> (r: String)
    ensures
        r@ == pairing::hex_of(bytes@),
{
    hex::encode(bytes)
}

/// The SHA-256 digest of some bytes.
pub fn sha256(bytes: &[u8]) -> (r: [u8; 32])
    ensures
        r@ == sha256_of(bytes@),
{
    let mut hasher = Hasher::start();
    hasher.feed(bytes);
    assert(hasher@ =~= bytes@);
    hasher.finish()
}

} // verus!
