//! The SHA-256 digest that names a payload.

use sha2::Digest;
use vstd::prelude::*;

verus! {

/// The SHA-256 digest of `data`, as the `sha2` crate computes it.
pub uninterp spec fn sha256(data: Seq<u8>) -> Seq<u8>;

/// Calls `sha2::Sha256::digest`, which hashes the whole input in one go and
/// returns the 32 bytes of the digest. The result depends on the input
/// bytes alone.
#[verifier::external_body]
pub(crate) fn sha256_digest(data: &[u8]) -> (hash: [u8; 32])
    ensures
        hash@ == sha256(data@),
{
    sha2::Sha256::digest(data).into()
}

} // verus!
