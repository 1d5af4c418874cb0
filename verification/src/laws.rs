//! The properties that tie the two pipelines together: a stream written
//! from representable characters and finalized decodes back to exactly
//! those characters, and the padding rule never lets a decoder mistake
//! pad bits for one more character.

use vstd::prelude::*;
use crate::charset::{
    char_bits, encodable, is_ext_char, lemma_base_inverse, lemma_ext_inverse, str_bits,
};
use crate::pack::{lemma_septet_at_bits, septet_at, septet_bits};
use crate::reader::decode_outcome;
use crate::writer::finalize_bits;

verus! {

/// A slice of a window of a stream is the matching slice of what the
/// window holds.
proof fn lemma_subrange_slice(full: Seq<bool>, p: int, bits: Seq<bool>, a: int, b: int)
    requires
        0 <= p,
        p + bits.len() <= full.len(),
        full.subrange(p, p + bits.len() as int) == bits,
        0 <= a <= b <= bits.len(),
    ensures
        full.subrange(p + a, p + b) == bits.subrange(a, b),
{
    assert forall|i: int| 0 <= i < b - a implies full.subrange(p + a, p + b)[i] == bits.subrange(
        a,
        b,
    )[i] by {
        assert(full.subrange(p + a, p + b)[i] == full[p + a + i]);
        assert(full.subrange(p, p + bits.len() as int)[a + i] == full[p + (a + i)]);
    }
    assert(full.subrange(p + a, p + b) =~= bits.subrange(a, b));
}

/// Decoding a stream that carries the encodings of representable
/// characters, followed by fewer than seven further bits, yields exactly
/// those characters, stops cleanly, and stops right after them.
proof fn lemma_decode_concat(full: Seq<bool>, p: int, s: Seq<char>)
    requires
        0 <= p,
        forall|i: int| 0 <= i < s.len() ==> encodable(#[trigger] s[i]),
        p + str_bits(s).len() <= full.len(),
        full.subrange(p, p + str_bits(s).len()) == str_bits(s),
        full.len() - (p + str_bits(s).len()) < 7,
    ensures
        decode_outcome(full, p).chars == s,
        decode_outcome(full, p).err is None,
        decode_outcome(full, p).end == p + str_bits(s).len(),
    decreases s.len(),
{
    let bits = str_bits(s);
    if s.len() == 0 {
        assert(bits.len() == 0);
        assert(decode_outcome(full, p).chars =~= s);
    } else {
        let c = s[0];
        let tail = s.drop_first();
        assert(encodable(c));
        assert(bits == char_bits(c) + str_bits(tail));
        let tail_bits = str_bits(tail);
        if is_ext_char(c) {
            lemma_ext_inverse(c);
            let w = crate::charset::ext_code(c);
            assert(char_bits(c) == septet_bits(0x1B) + septet_bits(w));
            assert(bits.len() == 14 + tail_bits.len());
            lemma_subrange_slice(full, p, bits, 0, 7);
            assert(bits.subrange(0, 7) =~= septet_bits(0x1B));
            lemma_septet_at_bits(full, p, 0x1B);
            lemma_subrange_slice(full, p, bits, 7, 14);
            assert(bits.subrange(7, 14) =~= septet_bits(w));
            lemma_septet_at_bits(full, p + 7, w);
            assert(forall|i: int| 0 <= i < tail.len() ==> encodable(#[trigger] tail[i]));
            lemma_subrange_slice(full, p, bits, 14, bits.len() as int);
            assert(bits.subrange(14, bits.len() as int) =~= tail_bits);
            lemma_decode_concat(full, p + 14, tail);
            assert(decode_outcome(full, p).chars =~= s);
        } else {
            lemma_base_inverse(c);
            let b = crate::charset::base_code(c);
            assert(char_bits(c) == septet_bits(b));
            assert(b != 0x1B);
            lemma_subrange_slice(full, p, bits, 0, 7);
            assert(bits.subrange(0, 7) =~= septet_bits(b));
            lemma_septet_at_bits(full, p, b);
            assert(forall|i: int| 0 <= i < tail.len() ==> encodable(#[trigger] tail[i]));
            lemma_subrange_slice(full, p, bits, 7, bits.len() as int);
            assert(bits.subrange(7, bits.len() as int) =~= tail_bits);
            lemma_decode_concat(full, p + 7, tail);
            assert(decode_outcome(full, p).chars =~= s);
        }
    }
}

/// Round-trip: whenever the accumulated bit count does not land one bit
/// past a byte boundary, decoding the finalized encoding of a sequence of
/// representable characters yields exactly that sequence and stops
/// cleanly. (When the count is one bit past a boundary, the seven zero
/// pad bits themselves form one further septet, which a decoder reads as
/// one extra character: such inputs are left out.)
pub proof fn lemma_round_trip(s: Seq<char>)
    requires
        forall|i: int| 0 <= i < s.len() ==> encodable(#[trigger] s[i]),
        str_bits(s).len() % 8 != 1,
    ensures
        decode_outcome(finalize_bits(str_bits(s)), 0).chars == s,
        decode_outcome(finalize_bits(str_bits(s)), 0).err is None,
        decode_outcome(finalize_bits(str_bits(s)), 0).end == str_bits(s).len(),
{
    let b = str_bits(s);
    let f = finalize_bits(b);
    let r = b.len() % 8;
    if r == 7 {
        assert(f =~= b.push(septet_bits(0x0D)[0]));
        assert(f.subrange(0, b.len() as int) =~= b);
        lemma_decode_concat(f, 0, s);
    } else if r != 0 {
        assert(f.subrange(0, b.len() as int) =~= b);
        assert(f.len() - b.len() < 7);
        lemma_decode_concat(f, 0, s);
    } else {
        assert(f.subrange(0, b.len() as int) =~= b);
        lemma_decode_concat(f, 0, s);
    }
}

/// Padding law for the short-by-one-unit case: when the accumulated bit
/// count stands one bit short of a byte boundary, finalization writes the
/// filler septet 0x0D and cuts the stream at the boundary, so exactly one
/// filler bit survives, the result is byte-aligned, and decoding it
/// yields no character beyond those written.
pub proof fn lemma_padding_filler(s: Seq<char>)
    requires
        forall|i: int| 0 <= i < s.len() ==> encodable(#[trigger] s[i]),
        str_bits(s).len() % 8 == 7,
    ensures
        finalize_bits(str_bits(s)) == (str_bits(s) + septet_bits(0x0D)).take(
            str_bits(s).len() as int + 1,
        ),
        finalize_bits(str_bits(s)).len() == str_bits(s).len() + 1,
        finalize_bits(str_bits(s)).len() % 8 == 0,
        decode_outcome(finalize_bits(str_bits(s)), 0).chars == s,
        decode_outcome(finalize_bits(str_bits(s)), 0).err is None,
{
    lemma_round_trip(s);
}

/// Padding law for the aligned case: when the accumulated bit count
/// already sits on a byte boundary, finalization adds nothing at all, and
/// decoding still yields exactly the characters written.
pub proof fn lemma_padding_aligned(s: Seq<char>)
    requires
        forall|i: int| 0 <= i < s.len() ==> encodable(#[trigger] s[i]),
        str_bits(s).len() % 8 == 0,
    ensures
        finalize_bits(str_bits(s)) == str_bits(s),
        decode_outcome(str_bits(s), 0).chars == s,
        decode_outcome(str_bits(s), 0).err is None,
{
    lemma_round_trip(s);
}

/// Escape fidelity: an extension character is encoded as exactly one
/// 14-bit pair of units whose first unit is the escape marker, and that
/// encoding, finalized, decodes back to exactly that character.
pub proof fn lemma_escape_fidelity(c: char)
    requires
        is_ext_char(c),
    ensures
        char_bits(c).len() == 14,
        char_bits(c).subrange(0, 7) == septet_bits(0x1B),
        septet_at(char_bits(c), 0) == 0x1B,
        decode_outcome(finalize_bits(char_bits(c)), 0).chars == seq![c],
        decode_outcome(finalize_bits(char_bits(c)), 0).err is None,
{
    lemma_ext_inverse(c);
    assert(char_bits(c).subrange(0, 7) =~= septet_bits(0x1B));
    lemma_septet_at_bits(char_bits(c), 0, 0x1B);
    let one = seq![c];
    assert(one.len() == 1 && one[0] == c);
    assert(one.drop_first() =~= Seq::<char>::empty());
    assert(str_bits(one) == char_bits(c) + str_bits(one.drop_first()));
    assert(str_bits(one) =~= char_bits(c));
    lemma_round_trip(one);
}

} // verus!
