//! Test cases for the signature-verification guest: public key, message and
//! signature as raw bytes, valid or deliberately broken.
use vstd::prelude::*;
use vstd::string::*;
use vstd::utf8::*;
use crate::encoding::{decimal, lemma_decimal_injective, push_decimal};
use crate::mldsa::{
    generate_public_key, keygen_and_sign, mldsa44_verifies, SigningError, PK_LEN,
    SIG_LEN,
};

verus! {

/// One case: public key, message and signature, all as raw bytes (the form
/// in which the guest reads them).
pub struct MlDsaCase {
    pub label: String,
    pub pk_bytes: Vec<u8>,
    pub message: Vec<u8>,
    pub sig_bytes: Vec<u8>,
    /// When `false`, proving the batch that holds this case is expected to
    /// fail (the case makes the whole batch be refused).
    pub expected_valid: bool,
}

/// One measurement of the benchmark harness: proving and verification
/// timed apart, and the size of the serialized proof in bytes.
pub struct BenchSample {
    pub proving_time: std::time::Duration,
    pub verification_time: std::time::Duration,
    pub proof_size_bytes: usize,
}

/// The public key of `c` has the ML-DSA-44 length.
pub open spec fn has_well_formed_key(c: MlDsaCase) -> bool {
    c.pk_bytes@.len() == PK_LEN
}

/// The signature of `c` is well formed and verifies its message under its key.
pub open spec fn signature_verifies(c: MlDsaCase) -> bool {
    &&& has_well_formed_key(c)
    &&& c.sig_bytes@.len() == SIG_LEN
    &&& mldsa44_verifies(c.pk_bytes@, c.message@, c.sig_bytes@)
}

/// `s` with the lowest bit of its last byte inverted.
pub open spec fn flip_last_bit(s: Seq<u8>) -> Seq<u8>
    recommends
        s.len() > 0,
{
    s.update(s.len() - 1, s.last() ^ 1u8)
}

/// The positive case with the given label, message, key and signature.
pub fn signed_case(label: &str, message: &[u8], pk_bytes: Vec<u8>, sig_bytes: Vec<u8>) -> (r:
    MlDsaCase)
    ensures
        r.label@ == label@,
        r.message@ == message@,
        r.pk_bytes@ == pk_bytes@,
        r.sig_bytes@ == sig_bytes@,
        r.expected_valid,
{
    MlDsaCase {
        label: label.to_owned(),
        pk_bytes,
        message: vstd::slice::slice_to_vec(message),
        sig_bytes,
        expected_valid: true,
    }
}

/// The positive case made of the outcome `signed` of key generation and
/// signing over `message`: `None` exactly when that outcome is `None`,
/// otherwise the case with the given key and signature.
pub fn case_from_signing(label: &str, message: &[u8], signed: Option<(Vec<u8>, Vec<u8>)>) -> (r:
    Option<MlDsaCase>)
    ensures
        match signed {
            None => r is None,
            Some((pk, sig)) => r matches Some(c) && {
                &&& c.label@ == label@
                &&& c.message@ == message@
                &&& c.pk_bytes@ == pk@
                &&& c.sig_bytes@ == sig@
                &&& c.expected_valid
            },
        },
{
    let (pk_bytes, sig_bytes) = signed?;
    Some(signed_case(label, message, pk_bytes, sig_bytes))
}

/// `case` with the lowest bit of the last byte of its signature inverted,
/// marked as expected to be refused.
pub fn tamper_signature(case: MlDsaCase) -> (r: MlDsaCase)
    requires
        case.sig_bytes@.len() > 0,
    ensures
        r.label == case.label,
        r.pk_bytes@ == case.pk_bytes@,
        r.message@ == case.message@,
        r.sig_bytes@ == flip_last_bit(case.sig_bytes@),
        !r.expected_valid,
{
    let mut case = case;
    let ghost genuine = case.sig_bytes@;
    let last = case.sig_bytes.len() - 1;
    let b = case.sig_bytes[last];
    case.sig_bytes.set(last, b ^ 0x01);
    case.expected_valid = false;
    assert(case.sig_bytes@ =~= flip_last_bit(genuine));
    case
}

/// `case` with its message replaced by `claimed`, marked as expected to be
/// refused.
pub fn claim_message(case: MlDsaCase, claimed: &[u8]) -> (r: MlDsaCase)
    ensures
        r.label == case.label,
        r.pk_bytes@ == case.pk_bytes@,
        r.message@ == claimed@,
        r.sig_bytes@ == case.sig_bytes@,
        !r.expected_valid,
{
    let mut case = case;
    case.message = vstd::slice::slice_to_vec(claimed);
    case.expected_valid = false;
    case
}

/// `case` with its public key replaced by `pk`, marked as expected to be
/// refused.
pub fn with_public_key(case: MlDsaCase, pk: Vec<u8>) -> (r: MlDsaCase)
    ensures
        r.label == case.label,
        r.pk_bytes@ == pk@,
        r.message@ == case.message@,
        r.sig_bytes@ == case.sig_bytes@,
        !r.expected_valid,
{
    let mut case = case;
    case.pk_bytes = pk;
    case.expected_valid = false;
    case
}

/// `case` with its public key replaced by the outcome `other` of a second
/// key generation, marked as expected to be refused: `None` exactly when
/// `other` is `None`.
pub fn replace_public_key(case: MlDsaCase, other: Option<Vec<u8>>) -> (r: Option<MlDsaCase>)
    ensures
        match other {
            None => r is None,
            Some(pk) => r matches Some(c) && {
                &&& c.label == case.label
                &&& c.pk_bytes@ == pk@
                &&& c.message@ == case.message@
                &&& c.sig_bytes@ == case.sig_bytes@
                &&& !c.expected_valid
            },
        },
{
    let pk = other?;
    Some(with_public_key(case, pk))
}

/// Positive case: a genuine signature over `message` under a fresh key.
///
/// An error only when key generation or signing failed in `fips204` (the
/// operating system's randomness failed, or signing exceeded its attempt
/// limit); the error is the one `fips204` reported, and nothing else in the
/// library can make one.
pub fn valid_case(label: &str, message: &[u8]) -> (r: Result<MlDsaCase, SigningError>)
    ensures
        r matches Ok(c) ==> {
            &&& c.label@ == label@
            &&& c.message@ == message@
            &&& c.expected_valid
            &&& signature_verifies(c)
        },
{
    match keygen_and_sign(message) {
        Ok((pk_bytes, sig_bytes)) => Ok(signed_case(label, message, pk_bytes, sig_bytes)),
        Err(e) => Err(e),
    }
}

/// Negative case: one bit of the last byte of a genuine signature is
/// inverted after signing. An error only as `valid_case` makes one.
pub fn case_tampered_signature(label: &str, message: &[u8]) -> (r: Result<MlDsaCase, SigningError>)
    ensures
        r matches Ok(c) ==> {
            &&& c.label@ == label@
            &&& c.message@ == message@
            &&& !c.expected_valid
            &&& has_well_formed_key(c)
            &&& c.sig_bytes@.len() == SIG_LEN
            &&& exists|s: Seq<u8>|
                #![trigger flip_last_bit(s)]
                s.len() == SIG_LEN && mldsa44_verifies(c.pk_bytes@, message@, s)
                    && c.sig_bytes@ == flip_last_bit(s)
        },
{
    let case = match valid_case(label, message) {
        Ok(c) => c,
        Err(e) => return Err(e),
    };
    let ghost genuine = case.sig_bytes@;
    let tampered = tamper_signature(case);
    assert(mldsa44_verifies(tampered.pk_bytes@, message@, genuine));
    Ok(tampered)
}

/// Negative case: a genuine signature over `signed`, but the message to be
/// verified is `claimed`. An error only as `valid_case` makes one.
pub fn case_wrong_message(label: &str, signed: &[u8], claimed: &[u8]) -> (r: Result<
    MlDsaCase,
    SigningError,
>)
    ensures
        r matches Ok(c) ==> {
            &&& c.label@ == label@
            &&& c.message@ == claimed@
            &&& !c.expected_valid
            &&& has_well_formed_key(c)
            &&& c.sig_bytes@.len() == SIG_LEN
            &&& mldsa44_verifies(c.pk_bytes@, signed@, c.sig_bytes@)
        },
{
    match valid_case(label, signed) {
        Ok(case) => Ok(claim_message(case, claimed)),
        Err(e) => Err(e),
    }
}

/// Negative case: a genuine signature, but checked against the public key
/// of another, independently generated key pair. An error only when one of
/// the two key generations, or the signing, failed in `fips204`.
pub fn case_wrong_pubkey(label: &str, message: &[u8]) -> (r: Result<MlDsaCase, SigningError>)
    ensures
        r matches Ok(c) ==> {
            &&& c.label@ == label@
            &&& c.message@ == message@
            &&& !c.expected_valid
            &&& has_well_formed_key(c)
            &&& c.sig_bytes@.len() == SIG_LEN
            &&& exists|pk: Seq<u8>|
                #![trigger mldsa44_verifies(pk, message@, c.sig_bytes@)]
                pk.len() == PK_LEN && mldsa44_verifies(
                    pk,
                    message@,
                    c.sig_bytes@,
                )
        },
{
    let case = match valid_case(label, message) {
        Ok(c) => c,
        Err(e) => return Err(e),
    };
    let ghost signer = case.pk_bytes@;
    let other = match generate_public_key() {
        Ok(pk) => pk,
        Err(e) => return Err(e),
    };
    let c = with_public_key(case, other);
    assert(mldsa44_verifies(signer, message@, c.sig_bytes@));
    Ok(c)
}

/// The label of case `i` of a batch with prefix `prefix`: `{prefix}-{i}`.
pub open spec fn batch_label(prefix: Seq<char>, i: nat) -> Seq<char> {
    prefix + "-"@ + decimal(i)
}

/// The message text of case `i` of a batch with prefix `prefix`:
/// `{prefix}-msg-{i}`.
pub open spec fn batch_message(prefix: Seq<char>, i: nat) -> Seq<char> {
    prefix + "-msg-"@ + decimal(i)
}


/// Distinct indices of a batch get distinct labels and distinct messages.
pub proof fn lemma_batch_cases_distinct(prefix: Seq<char>, i: nat, j: nat)
    requires
        i != j,
    ensures
        batch_label(prefix, i) != batch_label(prefix, j),
        encode_utf8(batch_message(prefix, i)) != encode_utf8(batch_message(prefix, j)),
{
    let head = prefix + "-msg-"@;
    let mi = batch_message(prefix, i);
    let mj = batch_message(prefix, j);
    if encode_utf8(mi) == encode_utf8(mj) {
        encode_utf8_decode_utf8(mi);
        encode_utf8_decode_utf8(mj);
        assert(mi.subrange(head.len() as int, mi.len() as int) =~= decimal(i));
        assert(mj.subrange(head.len() as int, mj.len() as int) =~= decimal(j));
        lemma_decimal_injective(i, j);
    }
    let head = prefix + "-"@;
    let li = batch_label(prefix, i);
    let lj = batch_label(prefix, j);
    if li == lj {
        assert(li.subrange(head.len() as int, li.len() as int) =~= decimal(i));
        assert(lj.subrange(head.len() as int, lj.len() as int) =~= decimal(j));
        lemma_decimal_injective(i, j);
    }
}

/// `k` independent valid cases, with key and message distinct per index:
/// `k` accounts signing `k` different transactions.
///
/// An error only when key generation or signing of one of the cases failed
/// in `fips204`, as `valid_case` makes one; for `k == 0` no key is
/// generated and the batch is empty.
pub fn valid_batch(label_prefix: &str, k: usize) -> (r: Result<Vec<MlDsaCase>, SigningError>)
    ensures
        k == 0 ==> (r matches Ok(cases) && cases@.len() == 0),
        r matches Ok(cases) ==> {
            &&& cases@.len() == k
            &&& forall|i: int|
                #![trigger cases@[i]]
                0 <= i < k ==> {
                    &&& cases@[i].label@ == batch_label(label_prefix@, i as nat)
                    &&& cases@[i].message@ == encode_utf8(batch_message(label_prefix@, i as nat))
                    &&& cases@[i].expected_valid
                    &&& signature_verifies(cases@[i])
                }
        },
{
    let mut cases: Vec<MlDsaCase> = Vec::new();
    for i in 0..k
        invariant
            cases@.len() == i,
            forall|j: int|
                #![trigger cases@[j]]
                0 <= j < i ==> {
                    &&& cases@[j].label@ == batch_label(label_prefix@, j as nat)
                    &&& cases@[j].message@ == encode_utf8(batch_message(label_prefix@, j as nat))
                    &&& cases@[j].expected_valid
                    &&& signature_verifies(cases@[j])
                },
    {
        let mut message = label_prefix.to_owned();
        message.append("-msg-");
        push_decimal(&mut message, i);
        let mut label = label_prefix.to_owned();
        label.append("-");
        push_decimal(&mut label, i);
        let case = match valid_case(label.as_str(), message.as_str().as_bytes()) {
            Ok(c) => c,
            Err(e) => return Err(e),
        };
        cases.push(case);
    }
    Ok(cases)
}

} // verus!
