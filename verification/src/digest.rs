//! SHA-256, as the aggregating guests use it, from `sha2`.
use vstd::prelude::*;
use sha2::Digest;

verus! {

/// The SHA-256 digest of `data`.
pub uninterp spec fn sha256(data: Seq<u8>) -> Seq<u8>;

/// Trusted: `sha2::Sha256::digest`.
///
/// Returns the SHA-256 digest of `data`, named by `sha256`; its 32 bytes
/// are fixed by the array type.
#[verifier::external_body]
pub(crate) fn sha256_digest(data: &[u8]) -> (r: [u8; 32])
    ensures
        r@ == sha256(data@),
{
    sha2::Sha256::digest(data).into()
}

} // verus!
