//! The mathematical model of the packed stream: a sequence of bits,
//! least-significant bit of each byte first, and the value of a septet
//! (a 7-bit code unit) read from such a sequence.

use vstd::prelude::*;
use vstd::arithmetic::div_mod::lemma_div_denominator;

verus! {

/// The eight bits of a byte, least significant first.
pub open spec fn byte_bits(b: u8) -> Seq<bool> {
    seq![
        b as int % 2 == 1,
        b as int / 2 % 2 == 1,
        b as int / 4 % 2 == 1,
        b as int / 8 % 2 == 1,
        b as int / 16 % 2 == 1,
        b as int / 32 % 2 == 1,
        b as int / 64 % 2 == 1,
        b as int / 128 % 2 == 1,
    ]
}

/// The bit stream carried by a byte sequence: the bytes in order, each
/// contributing its bits least significant first.
pub open spec fn bytes_bits(s: Seq<u8>) -> Seq<bool>
    decreases s.len(),
{
    if s.len() == 0 {
        Seq::empty()
    } else {
        bytes_bits(s.drop_last()) + byte_bits(s.last())
    }
}

/// The seven bits of a septet value, least significant first.
pub open spec fn septet_bits(v: int) -> Seq<bool> {
    seq![
        v % 2 == 1,
        v / 2 % 2 == 1,
        v / 4 % 2 == 1,
        v / 8 % 2 == 1,
        v / 16 % 2 == 1,
        v / 32 % 2 == 1,
        v / 64 % 2 == 1,
    ]
}

/// A bit read as the digit it contributes to a code unit's value.
pub open spec fn bit1(s: Seq<bool>, i: int) -> int {
    if s[i] {
        1
    } else {
        0
    }
}

/// The value of the septet whose bits stand at positions `p .. p + 7`
/// of the stream, least significant first.
pub open spec fn septet_at(s: Seq<bool>, p: int) -> int {
    bit1(s, p) + 2 * bit1(s, p + 1) + 4 * bit1(s, p + 2) + 8 * bit1(s, p + 3) + 16 * bit1(
        s,
        p + 4,
    ) + 32 * bit1(s, p + 5) + 64 * bit1(s, p + 6)
}

/// A value below 128 is the weighted sum of its seven binary digits.
pub proof fn lemma_unpack7(v: int)
    requires
        0 <= v < 128,
    ensures
        v == v % 2 + 2 * (v / 2 % 2) + 4 * (v / 4 % 2) + 8 * (v / 8 % 2) + 16 * (v / 16 % 2) + 32
            * (v / 32 % 2) + 64 * (v / 64 % 2),
{
    lemma_div_denominator(v, 2, 2);
    lemma_div_denominator(v, 4, 2);
    lemma_div_denominator(v, 8, 2);
    lemma_div_denominator(v, 16, 2);
    lemma_div_denominator(v, 32, 2);
    assert(v == 2 * (v / 2) + v % 2);
    assert(v / 2 == 2 * (v / 4) + v / 2 % 2);
    assert(v / 4 == 2 * (v / 8) + v / 4 % 2);
    assert(v / 8 == 2 * (v / 16) + v / 8 % 2);
    assert(v / 16 == 2 * (v / 32) + v / 16 % 2);
    assert(v / 32 == 2 * (v / 64) + v / 32 % 2);
    assert(v / 64 % 2 == v / 64);
}

/// Reading seven bits that were written as a septet's bits recovers the
/// septet's value.
pub proof fn lemma_septet_at_bits(s: Seq<bool>, p: int, v: int)
    requires
        0 <= v < 128,
        0 <= p,
        p + 7 <= s.len(),
        s.subrange(p, p + 7) == septet_bits(v),
    ensures
        septet_at(s, p) == v,
{
    let sub = s.subrange(p, p + 7);
    assert forall|i: int| 0 <= i < 7 implies s[p + i] == sub[i] by {}
    lemma_unpack7(v);
}

/// Appending one byte to a byte sequence appends its eight bits to the
/// carried bit stream.
pub proof fn lemma_bytes_bits_push(s: Seq<u8>, b: u8)
    ensures
        bytes_bits(s.push(b)) == bytes_bits(s) + byte_bits(b),
{
    assert(s.push(b).drop_last() =~= s);
    assert(s.push(b).last() == b);
}

/// The carried bit stream has eight bits for each byte.
pub proof fn lemma_bytes_bits_len(s: Seq<u8>)
    ensures
        bytes_bits(s).len() == 8 * s.len(),
    decreases s.len(),
{
    if s.len() > 0 {
        lemma_bytes_bits_len(s.drop_last());
    }
}

} // verus!
