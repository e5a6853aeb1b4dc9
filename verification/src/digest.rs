//! SHA-256 digests and their lower-case hexadecimal form.

use sha2::{Digest, Sha256};
use vstd::prelude::*;

verus! {

/// The SHA-256 digest of a byte string.
pub uninterp spec fn sha256(data: Seq<u8>) -> Seq<u8>;

/// Calls `Sha256::digest` of the `sha2` crate and copies the digest out.
/// Believed without proof: the result is the digest that `sha256` names,
/// and it is 32 bytes long.
#[verifier::external_body]
pub(crate) fn sha256_digest(data: &[u8]) -> (r: Vec<u8>)
    ensures
        r@ == sha256(data@),
        r@.len() == 32,
{
    Sha256::digest(data).to_vec()
}

/// The sixteen lower-case hexadecimal digits, by value.
pub open spec fn hex_digits() -> Seq<char> {
    seq!['0', '1', '2', '3', '4', '5', '6', '7', '8', '9', 'a', 'b', 'c', 'd', 'e', 'f']
}

/// Two lower-case hexadecimal digits for each byte, high digit first.
pub open spec fn lower_hex_text(bytes: Seq<u8>) -> Seq<char>
    decreases bytes.len(),
{
    if bytes.len() == 0 {
        Seq::empty()
    } else {
        lower_hex_text(bytes.drop_last()).push(hex_digits()[bytes.last() as int / 16]).push(
            hex_digits()[bytes.last() as int % 16],
        )
    }
}

pub proof fn lemma_lower_hex_len(bytes: Seq<u8>)
    ensures
        lower_hex_text(bytes).len() == 2 * bytes.len(),
    decreases bytes.len(),
{
    if bytes.len() > 0 {
        lemma_lower_hex_len(bytes.drop_last());
    }
}

/// Writes bytes as lower-case hexadecimal text.
pub fn lower_hex(bytes: &Vec<u8>) -> (r: String)
    ensures
        r@ == lower_hex_text(bytes@),
{
    let digits = "0123456789abcdef";
    proof {
        reveal_strlit("0123456789abcdef");
        assert(digits@ =~= hex_digits());
    }
    let mut out = String::new();
    let mut i: usize = 0;
    while i < bytes.len()
        invariant
            i <= bytes@.len(),
            digits@ == hex_digits(),
            out@ == lower_hex_text(bytes@.take(i as int)),
        decreases bytes@.len() - i,
    {
        let b: u8 = bytes[i];
        let high: usize = (b / 16) as usize;
        let low: usize = (b % 16) as usize;
        proof {
            assert(bytes@.take(i + 1).drop_last() =~= bytes@.take(i as int));
            assert(bytes@.take(i + 1).last() == b);
        }
        let first = digits.substring_char(high, high + 1);
        let second = digits.substring_char(low, low + 1);
        assert(first@ =~= seq![hex_digits()[high as int]]);
        assert(second@ =~= seq![hex_digits()[low as int]]);
        out.append(first);
        out.append(second);
        assert(out@ =~= lower_hex_text(bytes@.take(i as int)).push(hex_digits()[b as int / 16]).push(
            hex_digits()[b as int % 16],
        ));
        i = i + 1;
    }
    assert(bytes@.take(bytes@.len() as int) =~= bytes@);
    out
}

/// The first eight bytes of a digest read as a big-endian signed integer.
pub open spec fn leading_i64(d: Seq<u8>) -> int
    recommends
        d.len() >= 8,
{
    let unsigned = d[0] as int * 0x0100_0000_0000_0000 + d[1] as int * 0x0001_0000_0000_0000 + d[2] as int
        * 0x0000_0100_0000_0000 + d[3] as int * 0x0000_0001_0000_0000 + d[4] as int * 0x0100_0000
        + d[5] as int * 0x0001_0000 + d[6] as int * 0x0100 + d[7] as int;
    if unsigned >= 0x8000_0000_0000_0000 {
        unsigned - 0x1_0000_0000_0000_0000
    } else {
        unsigned
    }
}

/// Reads the first eight bytes as a big-endian signed integer.
pub fn leading_i64_of(d: &Vec<u8>) -> (r: i64)
    requires
        d@.len() >= 8,
    ensures
        r == leading_i64(d@),
{
    let high: u64 = d[0] as u64 * 0x0100_0000 + d[1] as u64 * 0x0001_0000 + d[2] as u64 * 0x0100
        + d[3] as u64;
    let low: u64 = d[4] as u64 * 0x0100_0000 + d[5] as u64 * 0x0001_0000 + d[6] as u64 * 0x0100
        + d[7] as u64;
    if high >= 0x8000_0000 {
        let rest: u64 = (high - 0x8000_0000) * 0x1_0000_0000 + low;
        let r: i64 = rest as i64 - 0x4000_0000_0000_0000 - 0x4000_0000_0000_0000;
        r
    } else {
        let r: u64 = high * 0x1_0000_0000 + low;
        r as i64
    }
}

} // verus!
