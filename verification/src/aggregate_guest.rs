//! The relation proved by the aggregating guests. Each reads, for every
//! sub-proof of the signature-verification guest, the digest of its
//! verifying key and its raw public values, and asks the zkVM to check the
//! sub-proof against that key digest and the SHA-256 of those values. The
//! plain aggregator passes the public values on as its own output; the
//! Merkle variant outputs only the root of the Merkle tree whose leaves are
//! those SHA-256 digests.
use vstd::prelude::*;
use crate::digest::{sha256, sha256_digest};
use crate::encoding::{
    bincode_decode_u32, bincode_decode_words, le_u32, le_words, lemma_le_u32_roundtrip,
    lemma_le_words_roundtrip, u32_le_bytes, words_le_bytes,
};
use crate::input::{aggregate_frames, append_bytes, view_frames, SubProofClaim};
use crate::merkle::{
    is_power_of_two, lemma_level_root_is_tree_root, level_root, merkle_root, power_of_two,
    tree_root, view_digests,
};

verus! {

/// A sub-proof that the zkVM is asked to check: the digest of the
/// verifying key it was made with, and the SHA-256 of its public values.
pub struct ProofClaim {
    pub vk_digest: [u32; 8],
    pub pv_digest: [u8; 32],
}

/// What the plain aggregator hands on: the sub-proofs to check, in order,
/// and the public values it commits (those of the sub-proofs, one after
/// the other).
pub struct AggregateOutput {
    pub claims: Vec<ProofClaim>,
    pub public_values: Vec<u8>,
}

/// What the Merkle aggregator hands on: the sub-proofs to check, in order,
/// and the Merkle root it commits.
pub struct MerkleAggregateOutput {
    pub claims: Vec<ProofClaim>,
    pub root: [u8; 32],
}

/// Why an aggregating guest refuses its input.
#[derive(Debug, Clone, Copy, PartialEq, Eq, Structural)]
pub enum AggregateRejection {
    /// The input ended before every announced frame was read.
    MissingFrame,
    /// The count frame is not a `u32`.
    MalformedCount,
    /// The key digest of entry `index` is not eight `u32` words.
    MalformedKeyDigest { index: u32 },
    /// The Merkle aggregator takes only a power-of-two number of sub-proofs.
    CountNotPowerOfTwo,
}

/// The contents of a sequence of claims: key-digest words and values digest.
pub open spec fn view_claims(c: Seq<ProofClaim>) -> Seq<(Seq<u32>, Seq<u8>)> {
    Seq::new(c.len(), |i: int| (c[i].vk_digest@, c[i].pv_digest@))
}

/// The claims and public values read from entries `i` up to `n` of the
/// frames `f`, or the first refusal met.
pub open spec fn aggregate_entries(f: Seq<Seq<u8>>, i: nat, n: nat) -> Result<
    (Seq<(Seq<u32>, Seq<u8>)>, Seq<u8>),
    AggregateRejection,
>
    decreases n - i,
{
    if i >= n {
        Ok((seq![], seq![]))
    } else if 1 + 2 * i >= f.len() {
        Err(AggregateRejection::MissingFrame)
    } else if f[1 + 2 * i as int].len() < 32 {
        Err(AggregateRejection::MalformedKeyDigest { index: i as u32 })
    } else if 2 + 2 * i >= f.len() {
        Err(AggregateRejection::MissingFrame)
    } else {
        let pv = f[2 + 2 * i as int];
        let claim = (le_words(f[1 + 2 * i as int]), sha256(pv));
        match aggregate_entries(f, i + 1, n) {
            Ok((claims, pvs)) => Ok((seq![claim] + claims, pv + pvs)),
            Err(e) => Err(e),
        }
    }
}

/// The outcome of the plain aggregator on the frames `f`: a count `n`, then
/// `n` entries; frames after them are not read.
pub open spec fn aggregate_outcome(f: Seq<Seq<u8>>) -> Result<
    (Seq<(Seq<u32>, Seq<u8>)>, Seq<u8>),
    AggregateRejection,
> {
    if f.len() == 0 {
        Err(AggregateRejection::MissingFrame)
    } else if f[0].len() < 4 {
        Err(AggregateRejection::MalformedCount)
    } else {
        aggregate_entries(f, 0, le_u32(f[0]) as nat)
    }
}

/// The leaves of the Merkle tree: the values digests of the claims.
pub open spec fn claim_leaves(claims: Seq<(Seq<u32>, Seq<u8>)>) -> Seq<Seq<u8>> {
    Seq::new(claims.len(), |i: int| claims[i].1)
}

/// The outcome of the Merkle aggregator on the frames `f`: the claims and
/// the root over their values digests, or the first refusal met.
pub open spec fn merkle_outcome(f: Seq<Seq<u8>>) -> Result<
    (Seq<(Seq<u32>, Seq<u8>)>, Seq<u8>),
    AggregateRejection,
> {
    if f.len() == 0 {
        Err(AggregateRejection::MissingFrame)
    } else if f[0].len() < 4 {
        Err(AggregateRejection::MalformedCount)
    } else if !power_of_two(le_u32(f[0]) as nat) {
        Err(AggregateRejection::CountNotPowerOfTwo)
    } else {
        match aggregate_entries(f, 0, le_u32(f[0]) as nat) {
            Ok((claims, _pvs)) => Ok((claims, level_root(claim_leaves(claims)))),
            Err(e) => Err(e),
        }
    }
}

/// `claims` and `pvs` in front of the result `r`, or the refusal of `r`.
pub open spec fn prepend_entries(
    claims: Seq<(Seq<u32>, Seq<u8>)>,
    pvs: Seq<u8>,
    r: Result<(Seq<(Seq<u32>, Seq<u8>)>, Seq<u8>), AggregateRejection>,
) -> Result<(Seq<(Seq<u32>, Seq<u8>)>, Seq<u8>), AggregateRejection> {
    match r {
        Ok((c, p)) => Ok((claims + c, pvs + p)),
        Err(e) => Err(e),
    }
}


/// The sub-proofs that an aggregation of `subs` asks the zkVM to check.
pub open spec fn expected_claims(subs: Seq<SubProofClaim>) -> Seq<(Seq<u32>, Seq<u8>)> {
    Seq::new(subs.len(), |i: int| (subs[i].vk_digest@, sha256(subs[i].public_values@)))
}

/// The public values of `subs` from `i` on, one after the other.
pub open spec fn joined_public_values(subs: Seq<SubProofClaim>, i: nat) -> Seq<u8>
    decreases subs.len() - i,
{
    if i >= subs.len() {
        seq![]
    } else {
        subs[i as int].public_values@ + joined_public_values(subs, i + 1)
    }
}

proof fn lemma_entries_of_written_input(subs: Seq<SubProofClaim>, i: nat)
    requires
        subs.len() <= u32::MAX,
        i <= subs.len(),
    ensures
        aggregate_entries(aggregate_frames(subs), i, subs.len()) == Ok::<
            (Seq<(Seq<u32>, Seq<u8>)>, Seq<u8>),
            AggregateRejection,
        >((expected_claims(subs).subrange(i as int, subs.len() as int), joined_public_values(subs, i))),
    decreases subs.len() - i,
{
    let f = aggregate_frames(subs);
    let n = subs.len();
    if i < n {
        lemma_entries_of_written_input(subs, i + 1);
        let s = subs[i as int];
        assert(f[1 + 2 * i as int] == words_le_bytes(s.vk_digest@));
        assert(f[2 + 2 * i as int] == s.public_values@);
        lemma_le_words_roundtrip(s.vk_digest@);
        assert(expected_claims(subs).subrange(i as int, n as int) =~= seq![
            (s.vk_digest@, sha256(s.public_values@)),
        ] + expected_claims(subs).subrange(i + 1 as int, n as int));
    } else {
        assert(expected_claims(subs).subrange(i as int, n as int) =~= seq![]);
    }
}

/// What the plain aggregator reads back of a written input is what was
/// written: it asks for each sub-proof to be checked against its key digest
/// and the SHA-256 of its public values, and outputs the public values of
/// all sub-proofs, one after the other.
pub proof fn lemma_written_aggregate_outcome(subs: Seq<SubProofClaim>)
    requires
        subs.len() <= u32::MAX,
    ensures
        aggregate_outcome(aggregate_frames(subs)) == Ok::<
            (Seq<(Seq<u32>, Seq<u8>)>, Seq<u8>),
            AggregateRejection,
        >((expected_claims(subs), joined_public_values(subs, 0))),
{
    let f = aggregate_frames(subs);
    lemma_le_u32_roundtrip(subs.len() as u32);
    assert(f[0] == u32_le_bytes(subs.len() as u32));
    lemma_entries_of_written_input(subs, 0);
    assert(expected_claims(subs).subrange(0, subs.len() as int) =~= expected_claims(subs));
}

/// The Merkle aggregator, given a power-of-two number of sub-proofs, asks
/// for the same checks and outputs the root of the balanced binary Merkle
/// tree whose leaves are the SHA-256 digests of the public values, in order.
pub proof fn lemma_written_merkle_outcome(subs: Seq<SubProofClaim>)
    requires
        subs.len() <= u32::MAX,
        power_of_two(subs.len()),
    ensures
        merkle_outcome(aggregate_frames(subs)) == Ok::<
            (Seq<(Seq<u32>, Seq<u8>)>, Seq<u8>),
            AggregateRejection,
        >(
            (
                expected_claims(subs),
                tree_root(Seq::new(subs.len(), |i: int| sha256(subs[i].public_values@))),
            ),
        ),
{
    let f = aggregate_frames(subs);
    lemma_le_u32_roundtrip(subs.len() as u32);
    assert(f[0] == u32_le_bytes(subs.len() as u32));
    lemma_entries_of_written_input(subs, 0);
    assert(expected_claims(subs).subrange(0, subs.len() as int) =~= expected_claims(subs));
    let leaves = claim_leaves(expected_claims(subs));
    assert(leaves =~= Seq::new(subs.len(), |i: int| sha256(subs[i].public_values@)));
    lemma_level_root_is_tree_root(leaves);
}

/// A count that is not a power of two is refused by the Merkle aggregator
/// before any entry is read.
pub proof fn lemma_merkle_refuses_other_counts(f: Seq<Seq<u8>>)
    requires
        f.len() > 0,
        f[0].len() >= 4,
        !power_of_two(le_u32(f[0]) as nat),
    ensures
        merkle_outcome(f) == Err::<(Seq<(Seq<u32>, Seq<u8>)>, Seq<u8>), AggregateRejection>(
            AggregateRejection::CountNotPowerOfTwo,
        ),
{
}

/// Reads entries `0..n` of `stdin` (the count frame is at 0).
fn read_entries(stdin: &Vec<Vec<u8>>, n: u32) -> (r: Result<
    (Vec<ProofClaim>, Vec<u8>),
    AggregateRejection,
>)
    requires
        stdin@.len() >= 1,
    ensures
        match r {
            Ok((claims, pvs)) => aggregate_entries(view_frames(stdin@), 0, n as nat) == Ok::<
                (Seq<(Seq<u32>, Seq<u8>)>, Seq<u8>),
                AggregateRejection,
            >((view_claims(claims@), pvs@)),
            Err(e) => aggregate_entries(view_frames(stdin@), 0, n as nat) == Err::<
                (Seq<(Seq<u32>, Seq<u8>)>, Seq<u8>),
                AggregateRejection,
            >(e),
        },
{
    let ghost f = view_frames(stdin@);
    let mut claims: Vec<ProofClaim> = Vec::new();
    let mut pvs: Vec<u8> = Vec::new();
    let mut i: u32 = 0;
    let mut base: usize = 1;
    while i < n
        invariant
            f == view_frames(stdin@),
            i <= n,
            base == 1 + 2 * i,
            base <= stdin@.len(),
            aggregate_entries(f, 0, n as nat) == prepend_entries(
                view_claims(claims@),
                pvs@,
                aggregate_entries(f, i as nat, n as nat),
            ),
        decreases n - i,
    {
        if base >= stdin.len() {
            return Err(AggregateRejection::MissingFrame);
        }
        let words = match bincode_decode_words(stdin[base].as_slice()) {
            Some(w) => w,
            None => {
                return Err(AggregateRejection::MalformedKeyDigest { index: i });
            },
        };
        if base + 1 >= stdin.len() {
            return Err(AggregateRejection::MissingFrame);
        }
        let pv = stdin[base + 1].as_slice();
        let digest = sha256_digest(pv);
        let ghost old_claims = view_claims(claims@);
        let ghost old_pvs = pvs@;
        claims.push(ProofClaim { vk_digest: words, pv_digest: digest });
        append_bytes(&mut pvs, pv);
        proof {
            assert(pv@ == f[2 + 2 * i as int]);
            let claim = (le_words(f[1 + 2 * i as int]), sha256(pv@));
            assert(view_claims(claims@) =~= old_claims + seq![claim]);
            let rest = aggregate_entries(f, (i + 1) as nat, n as nat);
            match rest {
                Ok((c, p)) => {
                    assert(old_claims + (seq![claim] + c) =~= view_claims(claims@) + c);
                    assert(old_pvs + (pv@ + p) =~= pvs@ + p);
                },
                Err(e) => {},
            }
        }
        i = i + 1;
        base = base + 2;
    }
    assert(view_claims(claims@) + seq![] =~= view_claims(claims@));
    assert(pvs@ + seq![] =~= pvs@);
    Ok((claims, pvs))
}

/// Runs the plain aggregator on its input frames: the sub-proofs to check
/// and the public values to commit, or the first refusal met.
pub fn aggregate_sub_proofs(stdin: &Vec<Vec<u8>>) -> (r: Result<AggregateOutput, AggregateRejection>)
    ensures
        match r {
            Ok(out) => aggregate_outcome(view_frames(stdin@)) == Ok::<
                (Seq<(Seq<u32>, Seq<u8>)>, Seq<u8>),
                AggregateRejection,
            >((view_claims(out.claims@), out.public_values@)),
            Err(e) => aggregate_outcome(view_frames(stdin@)) == Err::<
                (Seq<(Seq<u32>, Seq<u8>)>, Seq<u8>),
                AggregateRejection,
            >(e),
        },
{
    if stdin.len() == 0 {
        return Err(AggregateRejection::MissingFrame);
    }
    let n = match bincode_decode_u32(stdin[0].as_slice()) {
        Some(n) => n,
        None => return Err(AggregateRejection::MalformedCount),
    };
    let (claims, public_values) = read_entries(stdin, n)?;
    Ok(AggregateOutput { claims, public_values })
}

/// Runs the Merkle aggregator on its input frames: the sub-proofs to check
/// and the Merkle root to commit, or the first refusal met.
pub fn aggregate_merkle(stdin: &Vec<Vec<u8>>) -> (r: Result<MerkleAggregateOutput, AggregateRejection>)
    ensures
        match r {
            Ok(out) => merkle_outcome(view_frames(stdin@)) == Ok::<
                (Seq<(Seq<u32>, Seq<u8>)>, Seq<u8>),
                AggregateRejection,
            >((view_claims(out.claims@), out.root@)),
            Err(e) => merkle_outcome(view_frames(stdin@)) == Err::<
                (Seq<(Seq<u32>, Seq<u8>)>, Seq<u8>),
                AggregateRejection,
            >(e),
        },
{
    if stdin.len() == 0 {
        return Err(AggregateRejection::MissingFrame);
    }
    let n = match bincode_decode_u32(stdin[0].as_slice()) {
        Some(n) => n,
        None => return Err(AggregateRejection::MalformedCount),
    };
    if !is_power_of_two(n) {
        return Err(AggregateRejection::CountNotPowerOfTwo);
    }
    let (claims, _public_values) = read_entries(stdin, n)?;
    let mut leaves: Vec<[u8; 32]> = Vec::new();
    let m = claims.len();
    for j in 0..m
        invariant
            m == claims@.len(),
            view_digests(leaves@) =~= claim_leaves(view_claims(claims@)).subrange(0, j as int),
    {
        let ghost prev = leaves@;
        let d = claims[j].pv_digest;
        leaves.push(d);
        assert(leaves@ == prev.push(d));
        assert(d@ == claim_leaves(view_claims(claims@))[j as int]);
        assert(view_digests(leaves@) =~= view_digests(prev).push(d@));
        assert(view_digests(leaves@) =~= claim_leaves(view_claims(claims@)).subrange(0, j + 1));
    }
    assert(claim_leaves(view_claims(claims@)).subrange(0, m as int) =~= claim_leaves(view_claims(claims@)));
    assert(view_claims(claims@).len() == n) by {
        lemma_entries_len(view_frames(stdin@), 0, n as nat);
    }
    let root = merkle_root(leaves);
    Ok(MerkleAggregateOutput { claims, root })
}

proof fn lemma_entries_len(f: Seq<Seq<u8>>, i: nat, n: nat)
    requires
        i <= n,
    ensures
        aggregate_entries(f, i, n) matches Ok((c, _p)) ==> c.len() == n - i,
    decreases n - i,
{
    if i < n {
        lemma_entries_len(f, i + 1, n);
    }
}

} // verus!
