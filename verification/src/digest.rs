//! SHA-256 of the image, computed by the `sha2` crate as the bytes stream by.
use vstd::prelude::*;

verus! {

/// A running SHA-256 computation of the `sha2` crate (`sha2::Sha256`, whose
/// generic type Verus cannot declare), held whole and opaque.
#[verifier::external_body]
pub struct Sha256State {
    inner: sha2::Sha256,
}

/// The bytes a running SHA-256 computation has taken in so far.
pub uninterp spec fn sha256_absorbed(h: Sha256State) -> Seq<u8>;

/// The SHA-256 digest of `data`.
pub uninterp spec fn sha256_digest(data: Seq<u8>) -> Seq<u8>;

/// `<sha2::Sha256 as Digest>::new`: a computation that has taken in nothing.
#[verifier::external_body]
pub(crate) fn sha256_start() -> (h: Sha256State)
    ensures
        sha256_absorbed(h) == Seq::<u8>::empty(),
{
    Sha256State { inner: <sha2::Sha256 as sha2::Digest>::new() }
}

/// `Digest::update`: the computation takes in `data` after what it had.
#[verifier::external_body]
pub(crate) fn sha256_absorb(h: &mut Sha256State, data: &[u8])
    ensures
        sha256_absorbed(*final(h)) == sha256_absorbed(*old(h)) + data@,
{
    sha2::Digest::update(&mut h.inner, data)
}

/// `Digest::finalize`: the 32-byte digest of everything taken in.
#[verifier::external_body]
pub(crate) fn sha256_finish(h: Sha256State) -> (d: Vec<u8>)
    ensures
        d@ == sha256_digest(sha256_absorbed(h)),
        d@.len() == 32,
{
    sha2::Digest::finalize(h.inner).to_vec()
}

} // verus!
