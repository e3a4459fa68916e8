//! The binary Merkle tree over 32-byte digests that the Merkle-root
//! aggregating guest commits: each level pairs up neighbouring nodes and
//! hashes each pair with SHA-256, until one node, the root, is left.
use vstd::prelude::*;
use crate::digest::{sha256, sha256_digest};

verus! {

/// The byte contents of a sequence of digests.
pub open spec fn view_digests(d: Seq<[u8; 32]>) -> Seq<Seq<u8>> {
    Seq::new(d.len(), |i: int| d[i]@)
}

/// `n` is a power of two (one included).
pub open spec fn power_of_two(n: nat) -> bool
    decreases n,
{
    if n == 1 {
        true
    } else if n == 0 || n % 2 == 1 {
        false
    } else {
        power_of_two(n / 2)
    }
}

/// The level above `level`: the SHA-256 of each pair of neighbours (a last
/// node without a neighbour is dropped).
pub open spec fn next_level(level: Seq<Seq<u8>>) -> Seq<Seq<u8>> {
    Seq::new(level.len() / 2, |i: int| sha256(level[2 * i] + level[2 * i + 1]))
}

/// The root reached by hashing `level` level by level until one node is
/// left (`level` is not empty).
pub open spec fn level_root(level: Seq<Seq<u8>>) -> Seq<u8>
    decreases level.len(),
{
    if level.len() <= 1 {
        level[0]
    } else {
        level_root(next_level(level))
    }
}

/// The root of the balanced binary tree over `leaves`: the SHA-256 of the
/// roots of its two halves (`leaves` has a power-of-two length).
pub open spec fn tree_root(leaves: Seq<Seq<u8>>) -> Seq<u8>
    decreases leaves.len(),
{
    if leaves.len() <= 1 {
        leaves[0]
    } else {
        let half = leaves.len() / 2;
        sha256(
            tree_root(leaves.subrange(0, half as int)) + tree_root(
                leaves.subrange(half as int, leaves.len() as int),
            ),
        )
    }
}

proof fn lemma_next_level_halves(l: Seq<Seq<u8>>)
    requires
        l.len() % 4 == 0,
    ensures
        next_level(l).subrange(0, (l.len() / 4) as int) == next_level(
            l.subrange(0, (l.len() / 2) as int),
        ),
        next_level(l).subrange((l.len() / 4) as int, (l.len() / 2) as int) == next_level(
            l.subrange((l.len() / 2) as int, l.len() as int),
        ),
{
    let n = l.len();
    let left = l.subrange(0, (n / 2) as int);
    let right = l.subrange((n / 2) as int, n as int);
    assert(next_level(l).subrange(0, (n / 4) as int) =~= next_level(left));
    assert forall|i: int| 0 <= i < n / 4 implies #[trigger] next_level(right)[i] == next_level(
        l,
    )[(n / 4) as int + i] by {
        assert(right[2 * i] == l[2 * ((n / 4) as int + i)]);
        assert(right[2 * i + 1] == l[2 * ((n / 4) as int + i) + 1]);
    }
    assert(next_level(l).subrange((n / 4) as int, (n / 2) as int) =~= next_level(right));
}

proof fn lemma_power_of_two_even(n: nat)
    requires
        power_of_two(n),
        n > 1,
    ensures
        n % 2 == 0,
        power_of_two(n / 2),
{
}

proof fn lemma_tree_root_of_next_level(l: Seq<Seq<u8>>)
    requires
        power_of_two(l.len()),
        l.len() > 1,
    ensures
        tree_root(next_level(l)) == tree_root(l),
    decreases l.len(),
{
    let n = l.len();
    lemma_power_of_two_even(n);
    let nl = next_level(l);
    if n == 2 {
        assert(l.subrange(0, 1)[0] == l[0]);
        assert(l.subrange(1, 2)[0] == l[1]);
        assert(nl.len() == 1);
        assert(nl[0] == sha256(l[0] + l[1]));
        assert(tree_root(nl) == nl[0]);
        assert(tree_root(l.subrange(0, 1)) == l[0]);
        assert(tree_root(l.subrange(1, 2)) == l[1]);
        assert(tree_root(l) == sha256(l[0] + l[1]));
    } else {
        lemma_power_of_two_even(n / 2);
        assert(n % 4 == 0);
        let left = l.subrange(0, (n / 2) as int);
        let right = l.subrange((n / 2) as int, n as int);
        lemma_next_level_halves(l);
        lemma_tree_root_of_next_level(left);
        lemma_tree_root_of_next_level(right);
        assert(nl.len() == n / 2);
        assert((n / 2) / 2 == n / 4);
        assert(tree_root(nl) == sha256(
            tree_root(nl.subrange(0, (n / 4) as int)) + tree_root(nl.subrange((n / 4) as int, (n / 2) as int)),
        ));
        assert(nl.subrange(0, (n / 4) as int) == next_level(left));
        assert(nl.subrange((n / 4) as int, (n / 2) as int) == next_level(right));
        assert(tree_root(next_level(left)) == tree_root(left));
        assert(tree_root(next_level(right)) == tree_root(right));
        assert(tree_root(l) == sha256(tree_root(left) + tree_root(right)));
    }
}

/// Hashing level by level and hashing half by half give the same root, for
/// every power-of-two number of leaves.
pub proof fn lemma_level_root_is_tree_root(leaves: Seq<Seq<u8>>)
    requires
        power_of_two(leaves.len()),
    ensures
        level_root(leaves) == tree_root(leaves),
    decreases leaves.len(),
{
    if leaves.len() > 1 {
        lemma_power_of_two_even(leaves.len());
        lemma_level_root_is_tree_root(next_level(leaves));
        lemma_tree_root_of_next_level(leaves);
    }
}

/// The root of a single leaf is the leaf; that of two leaves is the SHA-256
/// of the first followed by the second.
pub proof fn lemma_small_roots(a: Seq<u8>, b: Seq<u8>)
    ensures
        level_root(seq![a]) == a,
        level_root(seq![a, b]) == sha256(a + b),
{
    let l = seq![a, b];
    assert(l[0] + l[1] == a + b);
    assert(next_level(l) =~= seq![sha256(a + b)]);
    assert(level_root(next_level(l)) == sha256(a + b));
}

/// Whether `n` is a power of two.
pub fn is_power_of_two(n: u32) -> (r: bool)
    ensures
        r == power_of_two(n as nat),
{
    if n == 0 {
        return false;
    }
    let mut m = n;
    while m > 1 && m % 2 == 0
        invariant
            m > 0,
            power_of_two(m as nat) == power_of_two(n as nat),
        decreases m,
    {
        m = m / 2;
    }
    m == 1
}

/// The 64 bytes of `a` followed by `b`.
fn concat_digests(a: &[u8; 32], b: &[u8; 32]) -> (r: Vec<u8>)
    ensures
        r@ == a@ + b@,
{
    let mut r: Vec<u8> = Vec::new();
    for i in 0..32
        invariant
            r@ == a@.subrange(0, i as int),
    {
        r.push(a[i]);
        assert(r@ =~= a@.subrange(0, i + 1));
    }
    for i in 0..32
        invariant
            r@ == a@ + b@.subrange(0, i as int),
    {
        r.push(b[i]);
        assert(r@ =~= a@ + b@.subrange(0, i + 1));
    }
    assert(a@.subrange(0, 32) =~= a@);
    assert(b@.subrange(0, 32) =~= b@);
    r
}

/// The Merkle root of `leaves`, computed level by level as the guest does.
pub fn merkle_root(leaves: Vec<[u8; 32]>) -> (r: [u8; 32])
    requires
        leaves@.len() >= 1,
    ensures
        r@ == level_root(view_digests(leaves@)),
{
    let mut level = leaves;
    while level.len() > 1
        invariant
            level@.len() >= 1,
            level_root(view_digests(level@)) == level_root(view_digests(leaves@)),
        decreases level@.len(),
    {
        let ghost before = view_digests(level@);
        let half = level.len() / 2;
        let mut next: Vec<[u8; 32]> = Vec::with_capacity(half);
        let mut j: usize = 0;
        while j < half
            invariant
                j <= half,
                half <= usize::MAX / 2,
                half == level@.len() / 2,
                2 * half <= level@.len(),
                before == view_digests(level@),
                view_digests(next@) =~= next_level(before).subrange(0, j as int),
            decreases half - j,
        {
            let pair = concat_digests(&level[2 * j], &level[2 * j + 1]);
            let node = sha256_digest(pair.as_slice());
            let ghost prev = next@;
            next.push(node);
            assert(before[2 * j as int] == level@[2 * j as int]@);
            assert(before[2 * j + 1] == level@[2 * j + 1]@);
            assert(next_level(before)[j as int] == node@);
            assert(next@ == prev.push(node));
            assert(view_digests(next@) =~= view_digests(prev).push(node@));
            assert(next_level(before).subrange(0, j + 1) =~= next_level(before).subrange(
                0,
                j as int,
            ).push(node@));
            assert(view_digests(next@) =~= next_level(before).subrange(0, j + 1));
            j = j + 1;
        }
        assert(view_digests(next@) =~= next_level(before));
        level = next;
    }
    level[0]
}

} // verus!
