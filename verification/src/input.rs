//! The input that the host hands to a guest: a sequence of frames, each a
//! buffer of bytes. The guest takes them in order, reading a count or a
//! digest by `bincode`-decoding a frame and raw bytes by taking a frame whole.
use vstd::prelude::*;
use crate::cases::MlDsaCase;
use crate::encoding::{
    bincode_decode_u32, lemma_le_u32_roundtrip, bincode_encode_u32, bincode_encode_words, le_u32, u32_le_bytes,
    words_le_bytes,
};

verus! {

/// The byte contents of a sequence of frames.
pub open spec fn view_frames(frames: Seq<Vec<u8>>) -> Seq<Seq<u8>> {
    Seq::new(frames.len(), |i: int| frames[i]@)
}

/// Field `j` (public key, message, signature) of case `c`.
pub open spec fn case_field(c: MlDsaCase, j: int) -> Seq<u8> {
    if j == 0 {
        c.pk_bytes@
    } else if j == 1 {
        c.message@
    } else {
        c.sig_bytes@
    }
}

/// The frames of a batch: the number of cases (as a `u32`, truncated as
/// `as` truncates), then public key, message and signature of each case.
pub open spec fn batch_frames(cases: Seq<MlDsaCase>) -> Seq<Seq<u8>> {
    seq![u32_le_bytes(cases.len() as u32)] + Seq::new(
        3 * cases.len(),
        |i: int| case_field(cases[i / 3], i % 3),
    )
}

/// How many frames a guest reads in all when its first frame is
/// `count_frame` and each announced entry takes `frames_per_entry` frames:
/// `None` when the first frame is not a count, or when the total does not
/// fit in a `usize`.
pub fn frames_announced(count_frame: &[u8], frames_per_entry: usize) -> (r: Option<usize>)
    ensures
        r matches Some(total) ==> count_frame@.len() >= 4 && total == 1 + le_u32(count_frame@)
            * frames_per_entry,
        r is None ==> count_frame@.len() < 4 || 1 + le_u32(count_frame@)
            * frames_per_entry > usize::MAX,
{
    let n = bincode_decode_u32(count_frame)?;
    let entries = (n as usize).checked_mul(frames_per_entry)?;
    entries.checked_add(1)
}

/// Copies `src` to the end of `dst`.
pub fn append_bytes(dst: &mut Vec<u8>, src: &[u8])
    ensures
        final(dst)@ == old(dst)@ + src@,
{
    let n = src.len();
    for i in 0..n
        invariant
            n == src@.len(),
            dst@ == old(dst)@ + src@.subrange(0, i as int),
    {
        dst.push(src[i]);
        assert(dst@ =~= old(dst)@ + src@.subrange(0, i + 1));
    }
    assert(src@.subrange(0, n as int) =~= src@);
}

/// Writes a batch to the guest's input: the number of cases `k` (a `u32`),
/// then the `k` triples (public key, message, signature). A batch of one
/// case is the single-signature form.
pub fn write_batch(stdin: &mut Vec<Vec<u8>>, cases: &[MlDsaCase])
    ensures
        view_frames(final(stdin)@) == view_frames(old(stdin)@) + batch_frames(cases@),
{
    let ghost start = view_frames(stdin@);
    let count = bincode_encode_u32(#[verifier::truncate] (cases.len() as u32));
    match count {
        Some(bytes) => stdin.push(bytes),
        None => {},
    }
    let n = cases.len();
    for i in 0..n
        invariant
            n == cases@.len(),
            view_frames(stdin@) =~= start + batch_frames(cases@).subrange(0, 1 + 3 * i),
    {
        let ghost before = stdin@;
        let c = &cases[i];
        let pk = vstd::slice::slice_to_vec(c.pk_bytes.as_slice());
        let msg = vstd::slice::slice_to_vec(c.message.as_slice());
        let sig = vstd::slice::slice_to_vec(c.sig_bytes.as_slice());
        stdin.push(pk);
        stdin.push(msg);
        stdin.push(sig);
        proof {
            let b = batch_frames(cases@);
            assert(view_frames(stdin@) =~= view_frames(before) + seq![
                c.pk_bytes@,
                c.message@,
                c.sig_bytes@,
            ]);
            assert(b[1 + 3 * i] == case_field(cases@[i as int], 0));
            assert(b[2 + 3 * i] == case_field(cases@[i as int], 1));
            assert(b[3 + 3 * i] == case_field(cases@[i as int], 2));
            assert(view_frames(stdin@) =~= start + b.subrange(0, 1 + 3 * (i + 1)));
        }
    }
    assert(batch_frames(cases@).subrange(0, 1 + 3 * n) =~= batch_frames(cases@));
}

/// What the aggregating guests receive of one sub-proof: the digest of its
/// verifying key and its raw public values.
pub struct SubProofClaim {
    pub vk_digest: [u32; 8],
    pub public_values: Vec<u8>,
}

/// The frames of an aggregation: the number of sub-proofs (as a `u32`,
/// truncated as `as` truncates), then the key digest and the public values
/// of each.
pub open spec fn aggregate_frames(subs: Seq<SubProofClaim>) -> Seq<Seq<u8>> {
    seq![u32_le_bytes(subs.len() as u32)] + Seq::new(
        2 * subs.len(),
        |i: int|
            if i % 2 == 0 {
                words_le_bytes(subs[i / 2].vk_digest@)
            } else {
                subs[i / 2].public_values@
            },
    )
}

/// Writes the ordinary input of an aggregating guest: the number of
/// sub-proofs `n` (a `u32`), then, for each, the digest of its verifying
/// key and its raw public values. (The proofs themselves travel apart from
/// these frames.)
pub fn write_aggregate_input(stdin: &mut Vec<Vec<u8>>, subs: &[SubProofClaim])
    ensures
        view_frames(final(stdin)@) == view_frames(old(stdin)@) + aggregate_frames(subs@),
{
    let ghost start = view_frames(stdin@);
    let count = bincode_encode_u32(#[verifier::truncate] (subs.len() as u32));
    match count {
        Some(bytes) => stdin.push(bytes),
        None => {},
    }
    let n = subs.len();
    for i in 0..n
        invariant
            n == subs@.len(),
            view_frames(stdin@) =~= start + aggregate_frames(subs@).subrange(0, 1 + 2 * i),
    {
        let ghost before = stdin@;
        let s = &subs[i];
        let digest = bincode_encode_words(&s.vk_digest);
        match digest {
            Some(bytes) => stdin.push(bytes),
            None => {},
        }
        stdin.push(vstd::slice::slice_to_vec(s.public_values.as_slice()));
        proof {
            let b = aggregate_frames(subs@);
            assert(view_frames(stdin@) =~= view_frames(before) + seq![
                words_le_bytes(s.vk_digest@),
                s.public_values@,
            ]);
            assert(b[1 + 2 * i] == words_le_bytes(subs@[i as int].vk_digest@));
            assert(b[2 + 2 * i] == subs@[i as int].public_values@);
            assert(view_frames(stdin@) =~= start + b.subrange(0, 1 + 2 * (i + 1)));
        }
    }
    assert(aggregate_frames(subs@).subrange(0, 1 + 2 * n) =~= aggregate_frames(subs@));
}


/// The count frame of a written batch announces exactly the frames written:
/// three per case after itself.
pub proof fn lemma_batch_frames_announced(cases: Seq<MlDsaCase>)
    requires
        cases.len() <= u32::MAX,
    ensures
        batch_frames(cases)[0].len() == 4,
        1 + le_u32(batch_frames(cases)[0]) * 3 == batch_frames(cases).len(),
{
    lemma_le_u32_roundtrip(cases.len() as u32);
}

/// The count frame of a written aggregation announces exactly the frames
/// written: two per sub-proof after itself.
pub proof fn lemma_aggregate_frames_announced(subs: Seq<SubProofClaim>)
    requires
        subs.len() <= u32::MAX,
    ensures
        aggregate_frames(subs)[0].len() == 4,
        1 + le_u32(aggregate_frames(subs)[0]) * 2 == aggregate_frames(subs).len(),
{
    lemma_le_u32_roundtrip(subs.len() as u32);
}

} // verus!
