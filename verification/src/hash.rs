//! SHA-256 digests of byte strings.

use sha2::{Digest, Sha256};
use vstd::prelude::*;

verus! {

/// The SHA-256 digest of a byte string.
pub uninterp spec fn sha256_digest(bytes: Seq<u8>) -> Seq<u8>;

/// Computes the SHA-256 digest of `bytes` with `Digest::digest` of the
/// `sha2` crate's `Sha256` hasher.
///
/// Trusted: the 32 bytes returned are taken to be `sha256_digest` of the
/// input, a function of the input alone. Nothing else is claimed of them.
#[verifier::external_body]
pub fn sha256(bytes: &[u8]) -> (digest: [u8; 32])
    ensures
        digest@ == sha256_digest(bytes@),
{
    Sha256::digest(bytes).into()
}

} // verus!
