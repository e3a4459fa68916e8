//! The relation proved by the signature-verification guest: "I know `k`
//! pairs (message, signature) such that each ML-DSA-44 signature is valid
//! under its public key". A batch is accepted only when every signature in
//! it verifies; the public output binds the proof to each public key and
//! message, without the signatures.
use vstd::prelude::*;
use crate::cases::{signature_verifies, MlDsaCase};
use crate::encoding::{bincode_decode_u32, le_u32, lemma_le_u32_roundtrip};
use crate::input::{append_bytes, batch_frames, case_field, view_frames};
use crate::mldsa::{
    decode_and_verify, mldsa44_verifies, PK_LEN, SIG_LEN,
};

verus! {

/// Why the guest refuses a batch (no proof of success can exist then).
#[derive(Debug, Clone, Copy, PartialEq, Eq, Structural)]
pub enum BatchRejection {
    /// The input ended before every announced frame was read.
    MissingFrame,
    /// The count frame is not a `u32`.
    MalformedCount,
    /// The public key of entry `index` does not have the ML-DSA-44 length.
    PublicKeyLength { index: u32 },
    /// The signature of entry `index` does not have the ML-DSA-44 length.
    SignatureLength { index: u32 },
    /// The signature of entry `index` does not verify.
    InvalidSignature { index: u32 },
}

/// What the guest finds wrong with the entry `index` made of `pk`, `msg`
/// and `sig`, in the order in which it checks; `None` when the signature
/// verifies.
pub open spec fn entry_rejection(pk: Seq<u8>, msg: Seq<u8>, sig: Seq<u8>, index: u32) -> Option<
    BatchRejection,
> {
    if pk.len() != PK_LEN {
        Some(BatchRejection::PublicKeyLength { index })
    } else if sig.len() != SIG_LEN {
        Some(BatchRejection::SignatureLength { index })
    } else if !mldsa44_verifies(pk, msg, sig) {
        Some(BatchRejection::InvalidSignature { index })
    } else {
        None
    }
}

/// `acc` in front of the public output of `r`, or the refusal of `r`.
pub open spec fn prepend(acc: Seq<u8>, r: Result<Seq<u8>, BatchRejection>) -> Result<
    Seq<u8>,
    BatchRejection,
> {
    match r {
        Ok(rest) => Ok(acc + rest),
        Err(e) => Err(e),
    }
}

/// The outcome of entries `i` up to `k` of the frames `f`: the first
/// refusal met, or the public keys and messages of the entries, each key
/// followed by its message.
pub open spec fn entries_outcome(f: Seq<Seq<u8>>, i: nat, k: nat) -> Result<
    Seq<u8>,
    BatchRejection,
>
    decreases k - i,
{
    if i >= k {
        Ok(seq![])
    } else if 1 + 3 * i + 3 > f.len() {
        Err(BatchRejection::MissingFrame)
    } else {
        let pk = f[1 + 3 * i as int];
        let msg = f[2 + 3 * i as int];
        let sig = f[3 + 3 * i as int];
        match entry_rejection(pk, msg, sig, i as u32) {
            Some(e) => Err(e),
            None => prepend(pk + msg, entries_outcome(f, i + 1, k)),
        }
    }
}

/// The outcome of the guest on the frames `f`: a count `k`, then `k`
/// entries; frames after them are not read.
pub open spec fn batch_outcome(f: Seq<Seq<u8>>) -> Result<Seq<u8>, BatchRejection> {
    if f.len() == 0 {
        Err(BatchRejection::MissingFrame)
    } else if f[0].len() < 4 {
        Err(BatchRejection::MalformedCount)
    } else {
        entries_outcome(f, 0, le_u32(f[0]) as nat)
    }
}


/// The outcome that the guest owes to the cases `i..` of a batch: the first
/// refusal, or the public keys and messages of the cases.
pub open spec fn cases_outcome(cases: Seq<MlDsaCase>, i: nat) -> Result<Seq<u8>, BatchRejection>
    decreases cases.len() - i,
{
    if i >= cases.len() {
        Ok(seq![])
    } else {
        let c = cases[i as int];
        match entry_rejection(c.pk_bytes@, c.message@, c.sig_bytes@, i as u32) {
            Some(e) => Err(e),
            None => prepend(c.pk_bytes@ + c.message@, cases_outcome(cases, i + 1)),
        }
    }
}

/// The public output of an accepted batch from case `i` on: each public
/// key followed by its message.
pub open spec fn public_output(cases: Seq<MlDsaCase>, i: nat) -> Seq<u8>
    decreases cases.len() - i,
{
    if i >= cases.len() {
        seq![]
    } else {
        cases[i as int].pk_bytes@ + cases[i as int].message@ + public_output(cases, i + 1)
    }
}

proof fn lemma_entries_of_written_batch(cases: Seq<MlDsaCase>, i: nat)
    requires
        cases.len() <= u32::MAX,
        i <= cases.len(),
    ensures
        entries_outcome(batch_frames(cases), i, cases.len()) == cases_outcome(cases, i),
    decreases cases.len() - i,
{
    let f = batch_frames(cases);
    if i < cases.len() {
        let c = cases[i as int];
        assert(f[1 + 3 * i as int] == case_field(c, 0));
        assert(f[2 + 3 * i as int] == case_field(c, 1));
        assert(f[3 + 3 * i as int] == case_field(c, 2));
        lemma_entries_of_written_batch(cases, i + 1);
    }
}

/// What the guest reads back of a written batch is what was written: run on
/// the frames of `cases`, it decides exactly as the cases themselves owe.
pub proof fn lemma_written_batch_outcome(cases: Seq<MlDsaCase>)
    requires
        cases.len() <= u32::MAX,
    ensures
        batch_outcome(batch_frames(cases)) == cases_outcome(cases, 0),
{
    let f = batch_frames(cases);
    lemma_le_u32_roundtrip(cases.len() as u32);
    assert(f[0] == crate::encoding::u32_le_bytes(cases.len() as u32));
    lemma_entries_of_written_batch(cases, 0);
}

proof fn lemma_cases_outcome_from(cases: Seq<MlDsaCase>, i: nat)
    requires
        i <= cases.len(),
    ensures
        cases_outcome(cases, i) is Ok <==> forall|j: int|
            #![trigger cases[j]]
            i <= j < cases.len() ==> signature_verifies(cases[j]),
        cases_outcome(cases, i) is Ok ==> cases_outcome(cases, i) == Ok::<Seq<u8>, BatchRejection>(
            public_output(cases, i),
        ),
    decreases cases.len() - i,
{
    if i < cases.len() {
        lemma_cases_outcome_from(cases, i + 1);
        let c = cases[i as int];
        if signature_verifies(c) {
            match cases_outcome(cases, i + 1) {
                Ok(x) => {
                    assert(c.pk_bytes@ + c.message@ + x == c.pk_bytes@ + c.message@ + public_output(cases, i + 1));
                },
                Err(e) => {
                    let j = choose|j: int| i + 1 <= j < cases.len() && !signature_verifies(#[trigger] cases[j]);
                    assert(i <= j < cases.len() && !signature_verifies(cases[j]));
                },
            }
        } else {
            assert(!signature_verifies(cases[i as int]));
        }
    }
}

/// A batch is accepted exactly when every signature in it verifies; an
/// accepted batch yields each public key followed by its message.
pub proof fn lemma_batch_accepted_iff_all_verify(cases: Seq<MlDsaCase>)
    requires
        cases.len() <= u32::MAX,
    ensures
        batch_outcome(batch_frames(cases)) is Ok <==> forall|j: int|
            #![trigger cases[j]]
            0 <= j < cases.len() ==> signature_verifies(cases[j]),
        batch_outcome(batch_frames(cases)) is Ok ==> batch_outcome(batch_frames(cases))
            == Ok::<Seq<u8>, BatchRejection>(public_output(cases, 0)),
{
    lemma_written_batch_outcome(cases);
    lemma_cases_outcome_from(cases, 0);
}

/// Runs the guest's relation on its input frames: the public output when
/// every signature of the batch verifies, else the first refusal met.
pub fn verify_batch(stdin: &Vec<Vec<u8>>) -> (r: Result<Vec<u8>, BatchRejection>)
    ensures
        match r {
            Ok(out) => batch_outcome(view_frames(stdin@)) == Ok::<Seq<u8>, BatchRejection>(out@),
            Err(e) => batch_outcome(view_frames(stdin@)) == Err::<Seq<u8>, BatchRejection>(e),
        },
{
    let ghost f = view_frames(stdin@);
    if stdin.len() == 0 {
        return Err(BatchRejection::MissingFrame);
    }
    let k = match bincode_decode_u32(stdin[0].as_slice()) {
        Some(k) => k,
        None => return Err(BatchRejection::MalformedCount),
    };
    let mut out: Vec<u8> = Vec::new();
    let mut i: u32 = 0;
    let mut base: usize = 1;
    while i < k
        invariant
            f == view_frames(stdin@),
            f.len() > 0,
            f[0].len() >= 4,
            k == le_u32(f[0]),
            i <= k,
            base == 1 + 3 * i,
            base <= stdin@.len(),
            batch_outcome(f) == prepend(out@, entries_outcome(f, i as nat, k as nat)),
        decreases k - i,
    {
        if stdin.len() - base < 3 {
            assert(entries_outcome(f, i as nat, k as nat) == Err::<Seq<u8>, BatchRejection>(
                BatchRejection::MissingFrame,
            ));
            return Err(BatchRejection::MissingFrame);
        }
        let pk = stdin[base].as_slice();
        let msg = stdin[base + 1].as_slice();
        let sig = stdin[base + 2].as_slice();
        assert(pk@ == f[1 + 3 * i]);
        assert(msg@ == f[2 + 3 * i]);
        assert(sig@ == f[3 + 3 * i]);
        if pk.len() != PK_LEN {
            return Err(BatchRejection::PublicKeyLength { index: i });
        }
        if sig.len() != SIG_LEN {
            return Err(BatchRejection::SignatureLength { index: i });
        }
        let verified = decode_and_verify(pk, msg, sig);
        if verified != Some(true) {
            return Err(BatchRejection::InvalidSignature { index: i });
        }
        let ghost before = out@;
        append_bytes(&mut out, pk);
        append_bytes(&mut out, msg);
        proof {
            let rest = entries_outcome(f, (i + 1) as nat, k as nat);
            assert(entries_outcome(f, i as nat, k as nat) == prepend(pk@ + msg@, rest));
            match rest {
                Ok(x) => {
                    assert(before + (pk@ + msg@ + x) =~= out@ + x);
                },
                Err(e) => {},
            }
        }
        i = i + 1;
        base = base + 3;
    }
    assert(entries_outcome(f, k as nat, k as nat) == Ok::<Seq<u8>, BatchRejection>(seq![]));
    assert(out@ + seq![] =~= out@);
    Ok(out)
}

} // verus!
