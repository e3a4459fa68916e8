//! The ML-DSA-44 operations that the library takes from `fips204`.
//!
//! `fips204` exposes its key types only as aliases of generic types of a
//! private module, which cannot be declared to Verus. Keys therefore cross
//! into verified code as their byte encodings, and each trusted item below
//! does its whole `fips204` step (decode, act, encode) on bytes.
use vstd::prelude::*;
use fips204::traits::{KeyGen, SerDes, Signer, Verifier};

verus! {

/// Length in bytes of an encoded ML-DSA-44 public key.
pub const PK_LEN: usize = 1312;

/// Length in bytes of an ML-DSA-44 signature.
pub const SIG_LEN: usize = 2420;

/// What `fips204`'s ML-DSA-44 `verify` answers for the public key encoded
/// by `pk`, the message `msg` and the signature `sig`, with the empty
/// context string.
pub uninterp spec fn mldsa44_verifies(pk: Seq<u8>, msg: Seq<u8>, sig: Seq<u8>) -> bool;

/// A failure that `fips204` reported while generating a key pair or
/// signing: the random number generator failed, or signing exceeded its
/// attempt limit. Only the calls into `fips204` below make one.
#[derive(Debug)]
pub struct SigningError {
    reason: &'static str,
}

/// Trusted: `fips204::ml_dsa_44::KG::try_keygen`, `PublicKey::into_bytes`
/// and `PrivateKey::try_sign` (with the empty context).
///
/// Generates a fresh key pair from the operating system's randomness and
/// signs `message` with it, handing back the encoded public key and the
/// signature. An error carries `fips204`'s own description of the failures
/// it documents: the random number generator failed (either call), or
/// signing exceeded its attempt limit. Of a result, the contract claims what `fips204`'s
/// documentation shows by example: the signature verifies under the key.
/// The key and the signature themselves depend on chance and are not named.
#[verifier::external_body]
pub(crate) fn keygen_and_sign(message: &[u8]) -> (r: Result<(Vec<u8>, Vec<u8>), SigningError>)
    ensures
        r matches Ok((pk, sig)) ==> {
            &&& pk@.len() == PK_LEN
            &&& sig@.len() == SIG_LEN
            &&& mldsa44_verifies(pk@, message@, sig@)
        },
{
    let (pk, sk) = fips204::ml_dsa_44::KG::try_keygen().map_err(|reason| SigningError { reason })?;
    let sig: [u8; SIG_LEN] = sk.try_sign(message, &[]).map_err(|reason| SigningError { reason })?;
    let pk_bytes: [u8; PK_LEN] = pk.into_bytes();
    Ok((pk_bytes.to_vec(), sig.to_vec()))
}

/// Trusted: `fips204::ml_dsa_44::KG::try_keygen` and `PublicKey::into_bytes`.
///
/// Generates a fresh key pair and hands back only its encoded public key;
/// an error carries `fips204`'s description of a failure of the random
/// number generator. The contract
/// claims that the encoding has `PK_LEN` bytes; which key comes out depends
/// on chance.
#[verifier::external_body]
pub(crate) fn generate_public_key() -> (r: Result<Vec<u8>, SigningError>)
    ensures
        r matches Ok(pk) ==> pk@.len() == PK_LEN,
{
    let (pk, _sk) = fips204::ml_dsa_44::KG::try_keygen().map_err(|reason| SigningError { reason })?;
    let pk_bytes: [u8; PK_LEN] = pk.into_bytes();
    Ok(pk_bytes.to_vec())
}

/// Trusted: `fips204::ml_dsa_44::PublicKey::try_from_bytes` and
/// `PublicKey::verify` (with the empty context).
///
/// `try_from_bytes` accepts every encoding of `PK_LEN` bytes: `fips204`
/// documents that FIPS 204 asks only for the exact length, which the array
/// type enforces, and its decoding unpacks 10-bit fields that are always in
/// range. So the result is always `Some`, holding the answer of `verify`,
/// named above as a function of the bytes handed in.
#[verifier::external_body]
pub(crate) fn decode_and_verify(pk: &[u8], message: &[u8], sig: &[u8]) -> (r: Option<bool>)
    requires
        pk@.len() == PK_LEN,
        sig@.len() == SIG_LEN,
    ensures
        r is Some,
        r matches Some(b) ==> b == mldsa44_verifies(pk@, message@, sig@),
{
    let mut pk_array = [0u8; PK_LEN];
    pk_array.copy_from_slice(pk);
    let mut sig_array = [0u8; SIG_LEN];
    sig_array.copy_from_slice(sig);
    let key = fips204::ml_dsa_44::PublicKey::try_from_bytes(pk_array).ok()?;
    Some(key.verify(message, &sig_array, &[]))
}

} // verus!
