//! The text that the benchmark harnesses write: the JSON fixture of a
//! Groth16 proof for the on-chain gas test, and the count of repetitions
//! already recorded in a results file.
use vstd::prelude::*;
use vstd::string::*;
use crate::encoding::{decimal, push_decimal};

verus! {

/// The lowercase hexadecimal digit of `d` (below sixteen).
pub open spec fn hex_digit(d: nat) -> char {
    if d < 10 {
        ((d + 48) as u32) as char
    } else {
        ((d + 87) as u32) as char
    }
}

/// `data` in lowercase hexadecimal, two digits per byte, high digit first.
pub open spec fn hex_lower(data: Seq<u8>) -> Seq<char>
    decreases data.len(),
{
    if data.len() == 0 {
        seq![]
    } else {
        seq![hex_digit((data[0] / 16) as nat), hex_digit((data[0] % 16) as nat)] + hex_lower(
            data.drop_first(),
        )
    }
}

/// The value of the lowercase hexadecimal digit `c`, or `None` for any
/// other character.
pub open spec fn hex_value(c: char) -> Option<nat> {
    if '0' <= c && c <= '9' {
        Some((c as u32 - 48) as nat)
    } else if 'a' <= c && c <= 'f' {
        Some((c as u32 - 87) as nat)
    } else {
        None
    }
}

/// The bytes that the lowercase hexadecimal text `s` spells, two digits per
/// byte, or `None` when `s` is not such a text.
pub open spec fn decode_hex(s: Seq<char>) -> Option<Seq<u8>>
    decreases s.len(),
{
    if s.len() == 0 {
        Some(seq![])
    } else if s.len() < 2 {
        None
    } else {
        match (hex_value(s[0]), hex_value(s[1]), decode_hex(s.subrange(2, s.len() as int))) {
            (Some(hi), Some(lo), Some(rest)) => Some(seq![(16 * hi + lo) as u8] + rest),
            _ => None,
        }
    }
}

proof fn lemma_hex_digit_value(d: nat)
    requires
        d < 16,
    ensures
        hex_value(hex_digit(d)) == Some(d),
{
    if d < 10 {
        assert(((d + 48) as u32) as char as u32 == d + 48);
    } else {
        assert(((d + 87) as u32) as char as u32 == d + 87);
    }
}

/// Reading lowercase hexadecimal back gives the bytes written: the text has
/// two digits per byte and spells exactly those bytes.
pub proof fn lemma_hex_lower_decodes(data: Seq<u8>)
    ensures
        hex_lower(data).len() == 2 * data.len(),
        decode_hex(hex_lower(data)) == Some(data),
    decreases data.len(),
{
    if data.len() > 0 {
        let b = data[0];
        lemma_hex_lower_decodes(data.drop_first());
        lemma_hex_digit_value((b / 16) as nat);
        lemma_hex_digit_value((b % 16) as nat);
        let h = hex_lower(data);
        assert(h.subrange(2, h.len() as int) =~= hex_lower(data.drop_first()));
        assert((16 * ((b / 16) as nat) + ((b % 16) as nat)) as u8 == b);
        assert(seq![b] + data.drop_first() =~= data);
    }
}

/// Trusted: `hex::encode`.
///
/// Encodes `data` with two lowercase hexadecimal digits per byte, as the
/// function's documentation states.
#[verifier::external_body]
fn hex_encode(data: &[u8]) -> (r: String)
    ensures
        r@ == hex_lower(data@),
{
    hex::encode(data)
}

/// The JSON fixture of a Groth16 proof: the batch or aggregation size under
/// the key `count_key`, the verifying key as given, and the public values
/// and the proof in `0x`-prefixed lowercase hexadecimal.
pub open spec fn fixture_json(
    count_key: Seq<char>,
    count: nat,
    vkey: Seq<char>,
    public_values: Seq<u8>,
    proof: Seq<u8>,
) -> Seq<char> {
    "{\n  \""@ + count_key + "\": "@ + decimal(count) + ",\n  \"vkey\": \""@ + vkey
        + "\",\n  \"publicValues\": \"0x"@ + hex_lower(public_values) + "\",\n  \"proof\": \"0x"@
        + hex_lower(proof) + "\"\n}\n"@
}

/// Renders the JSON fixture of a Groth16 proof for the gas benchmark.
pub fn groth16_fixture(
    count_key: &str,
    count: usize,
    vkey: &str,
    public_values: &[u8],
    proof: &[u8],
) -> (r: String)
    ensures
        r@ == fixture_json(count_key@, count as nat, vkey@, public_values@, proof@),
        exists|head: Seq<char>, pv_hex: Seq<char>, proof_hex: Seq<char>|
            {
                &&& r@ == head + "\",\n  \"publicValues\": \"0x"@ + pv_hex + "\",\n  \"proof\": \"0x"@
                    + proof_hex + "\"\n}\n"@
                &&& decode_hex(pv_hex) == Some(public_values@)
                &&& decode_hex(proof_hex) == Some(proof@)
            },
{
    let mut s = String::new();
    s.append("{\n  \"");
    s.append(count_key);
    s.append("\": ");
    push_decimal(&mut s, count);
    s.append(",\n  \"vkey\": \"");
    s.append(vkey);
    s.append("\",\n  \"publicValues\": \"0x");
    let pv_hex = hex_encode(public_values);
    s.append(pv_hex.as_str());
    s.append("\",\n  \"proof\": \"0x");
    let proof_hex = hex_encode(proof);
    s.append(proof_hex.as_str());
    s.append("\"\n}\n");
    assert(s@ =~= fixture_json(count_key@, count as nat, vkey@, public_values@, proof@));
    proof {
        lemma_hex_lower_decodes(public_values@);
        lemma_hex_lower_decodes(proof@);
        let head = "{\n  \""@ + count_key@ + "\": "@ + decimal(count as nat) + ",\n  \"vkey\": \""@
            + vkey@;
        assert(s@ =~= head + "\",\n  \"publicValues\": \"0x"@ + hex_lower(public_values@)
            + "\",\n  \"proof\": \"0x"@ + hex_lower(proof@) + "\"\n}\n"@);
    }
    s
}

/// The number of newline bytes in `b`.
pub open spec fn newline_count(b: Seq<u8>) -> nat
    decreases b.len(),
{
    if b.len() == 0 {
        0
    } else {
        newline_count(b.drop_last()) + if b.last() == 10u8 { 1nat } else { 0nat }
    }
}

proof fn lemma_newline_count_bound(b: Seq<u8>)
    ensures
        newline_count(b) <= b.len(),
    decreases b.len(),
{
    if b.len() > 0 {
        lemma_newline_count_bound(b.drop_last());
    }
}

/// The number of lines of the text encoded by `b`, as `str::lines` counts
/// them: one per newline, and one more for a non-empty last line without a
/// final newline.
pub open spec fn line_count(b: Seq<u8>) -> nat {
    newline_count(b) + if b.len() > 0 && b.last() != 10u8 { 1nat } else { 0nat }
}

/// The number of repetitions recorded in a results file: its lines after
/// the header (none for an empty file).
pub fn recorded_repetitions(contents: &str) -> (r: usize)
    ensures
        r as nat == if line_count(contents.spec_bytes()) == 0 {
            0
        } else {
            (line_count(contents.spec_bytes()) - 1) as nat
        },
{
    let bytes = contents.as_bytes();
    let n = bytes.len();
    let mut newlines: usize = 0;
    for i in 0..n
        invariant
            n == bytes@.len(),
            newlines as nat == newline_count(bytes@.subrange(0, i as int)),
            newlines <= i,
    {
        assert(bytes@.subrange(0, i + 1).drop_last() =~= bytes@.subrange(0, i as int));
        if bytes[i] == 10u8 {
            newlines = newlines + 1;
        }
    }
    assert(bytes@.subrange(0, n as int) =~= bytes@);
    let lines = if n > 0 && bytes[n - 1] != 10u8 {
        proof {
            lemma_newline_count_bound(bytes@.drop_last());
        }
        newlines + 1
    } else {
        newlines
    };
    lines.saturating_sub(1)
}

} // verus!
