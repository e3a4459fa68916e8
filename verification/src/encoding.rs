//! Byte and text encodings shared by the host and the guests: the
//! little-endian words that `bincode` writes for counts and key digests,
//! and decimal numbers in labels and messages.
use vstd::prelude::*;

verus! {

/// The four little-endian bytes of `x`.
pub open spec fn u32_le_bytes(x: u32) -> Seq<u8> {
    seq![
        (x % 256) as u8,
        ((x / 256) % 256) as u8,
        ((x / 65536) % 256) as u8,
        ((x / 16777216) % 256) as u8,
    ]
}

/// The number whose little-endian bytes start `b` (which has at least four).
pub open spec fn le_u32(b: Seq<u8>) -> u32
    recommends
        b.len() >= 4,
{
    (b[0] + 256 * b[1] + 65536 * b[2] + 16777216 * b[3]) as u32
}

/// The little-endian bytes of eight words, one after the other.
pub open spec fn words_le_bytes(w: Seq<u32>) -> Seq<u8> {
    Seq::new(32, |i: int| u32_le_bytes(w[i / 4])[i % 4])
}

/// The eight words whose little-endian bytes start `b` (which has at least 32).
pub open spec fn le_words(b: Seq<u8>) -> Seq<u32> {
    Seq::new(8, |i: int| le_u32(b.subrange(4 * i, 4 * i + 4)))
}

/// Reading back the bytes of a word gives the word.
pub proof fn lemma_le_u32_roundtrip(x: u32)
    ensures
        u32_le_bytes(x).len() == 4,
        le_u32(u32_le_bytes(x)) == x,
{
    let b = u32_le_bytes(x);
    let xi = x as int;
    assert(xi == xi % 256 + 256 * ((xi / 256) % 256) + 65536 * ((xi / 65536) % 256) + 16777216
        * ((xi / 16777216) % 256)) by (nonlinear_arith)
        requires
            0 <= xi < 4294967296,
    ;
}

/// Reading back the bytes of eight words gives the words.
pub proof fn lemma_le_words_roundtrip(w: Seq<u32>)
    requires
        w.len() == 8,
    ensures
        words_le_bytes(w).len() == 32,
        le_words(words_le_bytes(w)) == w,
{
    let b = words_le_bytes(w);
    assert forall|i: int| 0 <= i < 8 implies #[trigger] le_words(b)[i] == w[i] by {
        let s = b.subrange(4 * i, 4 * i + 4);
        lemma_le_u32_roundtrip(w[i]);
        assert(s =~= u32_le_bytes(w[i])) by {
            assert forall|j: int| 0 <= j < 4 implies s[j] == u32_le_bytes(w[i])[j] by {
                assert((4 * i + j) / 4 == i) by (nonlinear_arith)
                    requires 0 <= j < 4;
                assert((4 * i + j) % 4 == j) by (nonlinear_arith)
                    requires 0 <= j < 4;
            }
        }
    }
    assert(le_words(b) =~= w);
}

/// Trusted: `bincode::serialize` of a `u32`.
///
/// `bincode::serialize` encodes with fixed-width little-endian integers and
/// no size limit, so a `u32` comes out as its four little-endian bytes; the
/// output is a `Vec` in memory, so the call does not fail.
#[verifier::external_body]
pub(crate) fn bincode_encode_u32(x: u32) -> (r: Option<Vec<u8>>)
    ensures
        r is Some,
        r matches Some(v) ==> v@ == u32_le_bytes(x),
{
    bincode::serialize(&x).ok()
}

/// Trusted: `bincode::deserialize` into a `u32`.
///
/// With `bincode::deserialize`'s options (fixed-width little-endian,
/// trailing bytes allowed) a `u32` is read from the first four bytes; the
/// call fails exactly when fewer than four are there.
#[verifier::external_body]
pub(crate) fn bincode_decode_u32(bytes: &[u8]) -> (r: Option<u32>)
    ensures
        r is Some <==> bytes@.len() >= 4,
        r matches Some(v) ==> v == le_u32(bytes@),
{
    bincode::deserialize::<u32>(bytes).ok()
}

/// Trusted: `bincode::serialize` of a `[u32; 8]`.
///
/// An array is serialized as a tuple, without a length prefix, so the
/// eight words come out as their little-endian bytes one after the other.
#[verifier::external_body]
pub(crate) fn bincode_encode_words(w: &[u32; 8]) -> (r: Option<Vec<u8>>)
    ensures
        r is Some,
        r matches Some(v) ==> v@ == words_le_bytes(w@),
{
    bincode::serialize(w).ok()
}

/// Trusted: `bincode::deserialize` into a `[u32; 8]`.
///
/// Reads eight little-endian words from the first 32 bytes (trailing bytes
/// allowed); the call fails exactly when fewer than 32 are there.
#[verifier::external_body]
pub(crate) fn bincode_decode_words(bytes: &[u8]) -> (r: Option<[u32; 8]>)
    ensures
        r is Some <==> bytes@.len() >= 32,
        r matches Some(w) ==> w@ == le_words(bytes@),
{
    bincode::deserialize::<[u32; 8]>(bytes).ok()
}

/// The character of the decimal digit `d` (below ten).
pub open spec fn digit_char(d: nat) -> char {
    if d == 0 { '0' }
    else if d == 1 { '1' }
    else if d == 2 { '2' }
    else if d == 3 { '3' }
    else if d == 4 { '4' }
    else if d == 5 { '5' }
    else if d == 6 { '6' }
    else if d == 7 { '7' }
    else if d == 8 { '8' }
    else { '9' }
}

/// The decimal representation of `n`, without sign or leading zeros.
pub open spec fn decimal(n: nat) -> Seq<char>
    decreases n,
{
    if n < 10 {
        seq![digit_char(n)]
    } else {
        decimal(n / 10).push(digit_char(n % 10))
    }
}


/// A decimal representation has at least one digit, and at least two for
/// numbers from ten on.
pub proof fn lemma_decimal_len(n: nat)
    ensures
        decimal(n).len() >= 1,
        n >= 10 ==> decimal(n).len() >= 2,
    decreases n,
{
    if n >= 10 {
        lemma_decimal_len(n / 10);
    }
}

/// Different numbers have different decimal representations.
pub proof fn lemma_decimal_injective(n: nat, m: nat)
    requires
        decimal(n) == decimal(m),
    ensures
        n == m,
    decreases n,
{
    lemma_decimal_len(n);
    lemma_decimal_len(m);
    if n < 10 && m < 10 {
        assert(decimal(n)[0] == digit_char(n));
        assert(decimal(m)[0] == digit_char(m));
    } else if n >= 10 && m >= 10 {
        let dn = decimal(n);
        let dm = decimal(m);
        assert(dn.last() == digit_char(n % 10));
        assert(dm.last() == digit_char(m % 10));
        assert(dn.drop_last() =~= decimal(n / 10));
        assert(dm.drop_last() =~= decimal(m / 10));
        lemma_decimal_injective(n / 10, m / 10);
    } else {
        assert(decimal(n).len() != decimal(m).len());
    }
}

fn digit_str(d: usize) -> (s: &'static str)
    requires
        d < 10,
    ensures
        s@ == seq![digit_char(d as nat)],
{
    if d == 0 {
        proof { reveal_strlit("0"); }
        "0"
    } else if d == 1 {
        proof { reveal_strlit("1"); }
        "1"
    } else if d == 2 {
        proof { reveal_strlit("2"); }
        "2"
    } else if d == 3 {
        proof { reveal_strlit("3"); }
        "3"
    } else if d == 4 {
        proof { reveal_strlit("4"); }
        "4"
    } else if d == 5 {
        proof { reveal_strlit("5"); }
        "5"
    } else if d == 6 {
        proof { reveal_strlit("6"); }
        "6"
    } else if d == 7 {
        proof { reveal_strlit("7"); }
        "7"
    } else if d == 8 {
        proof { reveal_strlit("8"); }
        "8"
    } else {
        proof { reveal_strlit("9"); }
        "9"
    }
}

/// Appends the decimal representation of `n` to `s`.
pub fn push_decimal(s: &mut String, n: usize)
    ensures
        final(s)@ == old(s)@ + decimal(n as nat),
    decreases n,
{
    if n >= 10 {
        push_decimal(s, n / 10);
    }
    let d = digit_str(n % 10);
    s.append(d);
    proof {
        if n >= 10 {
            assert(decimal(n as nat) == decimal((n / 10) as nat).push(digit_char((n % 10) as nat)));
        }
    }
    assert(final(s)@ =~= old(s)@ + decimal(n as nat));
}

} // verus!
