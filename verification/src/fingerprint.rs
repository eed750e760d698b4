//! Fingerprinting of diagnostic text.
//!
//! A diagnostic (stack or backtrace text) is keyed by a fixed-length
//! cryptographic digest of its raw bytes, so that semantically identical
//! faults from different invocations resolve to the same incident.

use vstd::prelude::*;
use sha2::Digest;

verus! {

/// The SHA-256 digest of a byte sequence, as the outside hash function
/// computes it. The digest depends on the input bytes alone, so naming it is
/// sound; its 32-byte length is the one fact stated beside it.
pub uninterp spec fn sha256_of(data: Seq<u8>) -> Seq<u8>;

/// Relies on sha2's `Sha256` (through the `Digest` trait): `new`, `update`,
/// `finalize` compute the SHA-256 digest of the input bytes, a value that is a
/// function of those bytes alone and is always 32 bytes long.
#[verifier::external_body]
pub(crate) fn fingerprint(data: &Vec<u8>) -> (r: Vec<u8>)
    ensures
        r@ == sha256_of(data@),
        r@.len() == 32,
{
    let mut hasher = sha2::Sha256::new();
    hasher.update(data.as_slice());
    Vec::from(hasher.finalize().as_slice())
}

/// Fingerprinting is deterministic: identical diagnostic bytes always yield
/// the identical fingerprint. (That two differing inputs yield differing
/// fingerprints is a collision-resistance property of the digest and holds
/// only with overwhelming probability; it is exercised by tests, not proved.)
pub proof fn lemma_fingerprint_deterministic(a: Seq<u8>, b: Seq<u8>)
    requires
        a == b,
    ensures
        sha256_of(a) == sha256_of(b),
{
}

} // verus!
