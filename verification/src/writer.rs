//! The encoding pipeline: characters go in one at a time, bits accumulate,
//! and finalization applies the padding rule and packs the bits into bytes.

use vstd::prelude::*;
use vstd::arithmetic::div_mod::lemma_div_denominator;
use vstd::arithmetic::power2::{pow2, lemma_pow2_pos, lemma_pow2_unfold, lemma2_to64};
use vstd::string::StrSliceExecFns;
use crate::Gsm7Error;
use crate::charset::{
    char_bits, encodable, encodable_prefix, encode_base, encode_escape, lemma_encodable_prefix_at,
    lemma_str_bits_snoc, str_bits,
};
use crate::pack::{byte_bits, bytes_bits, lemma_bytes_bits_len, lemma_bytes_bits_push, septet_bits};

verus! {

/// The bit that position `i` of `value` contributes, least significant
/// first.
pub open spec fn val_bit(value: u64, i: int) -> bool {
    (value as int / pow2(i as nat) as int) % 2 == 1
}

/// What finalization makes of an accumulated bit stream. When the count is
/// one bit short of a byte boundary, a filler septet with value 0x0D is
/// written and the stream is then cut at the boundary, so only the filler's
/// first bit lands in a byte; otherwise a partial byte is filled up with
/// zero bits, and an aligned stream is left alone.
pub open spec fn finalize_bits(b: Seq<bool>) -> Seq<bool> {
    let r = b.len() % 8;
    if r == 7 {
        (b + septet_bits(0x0D)).take(b.len() as int + 1)
    } else if r != 0 {
        b + Seq::new((8 - r) as nat, |i: int| false)
    } else {
        b
    }
}

/// Accepts characters (and raw bits) one at a time and appends their
/// encoding to an internal bit accumulator; `into_writer` applies the
/// padding rule and hands the packed bytes back.
pub struct Gsm7Writer {
    buf: Vec<bool>,
}

impl Gsm7Writer {
    /// The bits accumulated so far, in the order they will stand in the
    /// packed stream.
    pub closed spec fn bits(&self) -> Seq<bool> {
        self.buf@
    }

    /// A fresh writer holds no bits.
    pub fn new() -> (w: Gsm7Writer)
        ensures
            w.bits() == Seq::<bool>::empty(),
    {
        Gsm7Writer { buf: Vec::new() }
    }

    /// Appends a single raw bit.
    pub fn write_bit(&mut self, bit: bool)
        ensures
            final(self).bits() == old(self).bits().push(bit),
    {
        self.buf.push(bit);
    }

    /// Appends the low `bits` bits of `value`, least significant first.
    pub fn write(&mut self, bits: u32, value: u64)
        requires
            bits <= 64,
            (value as int) < pow2(bits as nat),
        ensures
            final(self).bits() == old(self).bits() + Seq::new(
                bits as nat,
                |i: int| val_bit(value, i),
            ),
    {
        let ghost start = self.buf@;
        let mut v: u64 = value;
        let mut j: u32 = 0;
        proof {
            lemma2_to64();
        }
        while j < bits
            invariant
                j <= bits,
                v as int == value as int / pow2(j as nat) as int,
                self.buf@ == start + Seq::new(j as nat, |i: int| val_bit(value, i)),
            decreases bits - j,
        {
            self.buf.push(v % 2 == 1);
            proof {
                lemma_pow2_pos(j as nat);
                lemma_div_denominator(value as int, pow2(j as nat) as int, 2);
                lemma_pow2_unfold((j + 1) as nat);
                assert(pow2((j + 1) as nat) == 2 * pow2(j as nat));
                assert(self.buf@ =~= start + Seq::new((j + 1) as nat, |i: int| val_bit(value, i)));
            }
            v = v / 2;
            j = j + 1;
        }
        assert(self.buf@ =~= start + Seq::new(bits as nat, |i: int| val_bit(value, i)));
    }

    /// Appends whole bytes, least significant bit of each first, advancing
    /// the same bit count that the padding rule consults.
    pub fn write_bytes(&mut self, buf: &[u8])
        ensures
            final(self).bits() == old(self).bits() + bytes_bits(buf@),
    {
        let ghost start = self.buf@;
        let mut k: usize = 0;
        while k < buf.len()
            invariant
                k <= buf@.len(),
                self.buf@ == start + bytes_bits(buf@.take(k as int)),
            decreases buf@.len() - k,
        {
            let b = buf[k];
            self.push_byte(b);
            proof {
                lemma_bytes_bits_push(buf@.take(k as int), b);
                assert(buf@.take(k as int).push(b) =~= buf@.take(k + 1));
                assert(self.buf@ =~= start + bytes_bits(buf@.take(k + 1)));
            }
            k = k + 1;
        }
        assert(buf@.take(buf@.len() as int) =~= buf@);
    }

    /// Appends the eight bits of one byte, least significant first.
    fn push_byte(&mut self, b: u8)
        ensures
            final(self).bits() == old(self).bits() + byte_bits(b),
    {
        self.buf.push(b % 2 == 1);
        self.buf.push(b / 2 % 2 == 1);
        self.buf.push(b / 4 % 2 == 1);
        self.buf.push(b / 8 % 2 == 1);
        self.buf.push(b / 16 % 2 == 1);
        self.buf.push(b / 32 % 2 == 1);
        self.buf.push(b / 64 % 2 == 1);
        self.buf.push(b / 128 % 2 == 1);
        assert(final(self).bits() =~= old(self).bits() + byte_bits(b));
    }

    /// Appends the seven bits of one septet, least significant first.
    fn push_septet(&mut self, v: u8)
        requires
            v < 128,
        ensures
            final(self).bits() == old(self).bits() + septet_bits(v as int),
    {
        self.buf.push(v % 2 == 1);
        self.buf.push(v / 2 % 2 == 1);
        self.buf.push(v / 4 % 2 == 1);
        self.buf.push(v / 8 % 2 == 1);
        self.buf.push(v / 16 % 2 == 1);
        self.buf.push(v / 32 % 2 == 1);
        self.buf.push(v / 64 % 2 == 1);
        assert(final(self).bits() =~= old(self).bits() + septet_bits(v as int));
    }

    /// Appends the escape marker and an extension septet.
    fn write_ext(&mut self, b: u8)
        requires
            b < 128,
        ensures
            final(self).bits() == old(self).bits() + septet_bits(0x1B) + septet_bits(b as int),
    {
        self.push_septet(0x1B);
        self.push_septet(b);
    }

    /// Appends the encoding of one character: an escape pair for an
    /// extension character, a lone septet for a base character, and an
    /// error — with the accumulator untouched — for anything else.
    pub fn write_char(&mut self, c: char) -> (r: Result<(), Gsm7Error>)
        ensures
            encodable(c) ==> r is Ok && final(self).bits() == old(self).bits() + char_bits(c),
            !encodable(c) ==> r == Result::<(), Gsm7Error>::Err(Gsm7Error::NotEncodable)
                && final(self).bits() == old(self).bits(),
    {
        match encode_escape(c) {
            Some(b) => {
                proof {
                    crate::charset::lemma_ext_inverse(c);
                }
                self.write_ext(b);
                assert(final(self).bits() =~= old(self).bits() + char_bits(c));
                Ok(())
            },
            None => {
                match encode_base(c) {
                    Some(b) => {
                        if b == 0x1B {
                            proof {
                                crate::charset::lemma_base_inverse(c);
                            }
                            Err(Gsm7Error::NotEncodable)
                        } else {
                            proof {
                                crate::charset::lemma_base_inverse(c);
                            }
                            self.push_septet(b);
                            Ok(())
                        }
                    },
                    None => Err(Gsm7Error::NotEncodable),
                }
            },
        }
    }

    /// Appends the encoding of each character in turn, stopping with an
    /// error at the first one the tables cannot represent; everything
    /// before it has been appended.
    pub fn write_str(&mut self, s: &str) -> (r: Result<(), Gsm7Error>)
        ensures
            encodable_prefix(s@) == s@.len() ==> r is Ok && final(self).bits() == old(self).bits()
                + str_bits(s@),
            encodable_prefix(s@) < s@.len() ==> r == Result::<(), Gsm7Error>::Err(
                Gsm7Error::NotEncodable,
            ) && final(self).bits() == old(self).bits() + str_bits(
                s@.take(encodable_prefix(s@)),
            ),
    {
        let n = s.unicode_len();
        let mut i: usize = 0;
        while i < n
            invariant
                i <= n,
                n == s@.len(),
                forall|j: int| 0 <= j < i ==> encodable(s@[j]),
                self.bits() == old(self).bits() + str_bits(s@.take(i as int)),
            decreases n - i,
        {
            let c = s.get_char(i);
            let ghost pre = self.bits();
            match self.write_char(c) {
                Ok(()) => {
                    proof {
                        lemma_str_bits_snoc(s@.take(i + 1));
                        assert(s@.take(i + 1).drop_last() =~= s@.take(i as int));
                        assert(s@.take(i + 1).last() == c);
                        assert(self.bits() =~= old(self).bits() + str_bits(s@.take(i + 1)));
                    }
                },
                Err(e) => {
                    proof {
                        assert(!encodable(s@[i as int]));
                        lemma_encodable_prefix_at(s@, i as int);
                        assert(encodable_prefix(s@) == i as int);
                        assert(self.bits() == old(self).bits() + str_bits(s@.take(i as int)));
                    }
                    return Err(e);
                },
            }
            i = i + 1;
        }
        proof {
            lemma_encodable_prefix_at(s@, n as int);
            assert(s@.take(n as int) =~= s@);
        }
        Ok(())
    }

    /// Applies the padding rule to the accumulated bits and packs every
    /// full byte of the result, least significant bit first; a partial
    /// byte left by the filler septet is cut off at the boundary.
    #[verifier::rlimit(50)]
    pub fn into_writer(self) -> (r: Vec<u8>)
        ensures
            bytes_bits(r@) == finalize_bits(self.bits()),
            8 * r@.len() == finalize_bits(self.bits()).len(),
    {
        let ghost orig = self.bits();
        let mut w = self;
        let rem: usize = w.buf.len() % 8;
        if rem == 7 {
            w.push_septet(0x0D);
            assert(w.buf@.take(orig.len() as int + 1) =~= finalize_bits(orig));
        } else if rem != 0 {
            let pad = 8 - rem;
            let mut p: usize = 0;
            while p < pad
                invariant
                    p <= pad,
                    pad == 8 - orig.len() % 8,
                    0 < pad < 8,
                    w.buf@ == orig + Seq::new(p as nat, |i: int| false),
                decreases pad - p,
            {
                w.buf.push(false);
                assert(w.buf@ =~= orig + Seq::new((p + 1) as nat, |i: int| false));
                p = p + 1;
            }
            assert(w.buf@ =~= finalize_bits(orig));
        }
        let total = w.buf.len();
        let keep = total - total % 8;
        assert(w.buf@.take(keep as int) =~= finalize_bits(orig));
        let mut out: Vec<u8> = Vec::new();
        let mut k: usize = 0;
        while keep - k >= 8
            invariant
                k % 8 == 0,
                k <= keep <= w.buf@.len(),
                keep % 8 == 0,
                bytes_bits(out@) == w.buf@.take(k as int),
                8 * out@.len() == k,
            decreases keep - k,
        {
            let b: u8 = (if w.buf[k] {
                1u8
            } else {
                0u8
            }) + (if w.buf[k + 1] {
                2u8
            } else {
                0u8
            }) + (if w.buf[k + 2] {
                4u8
            } else {
                0u8
            }) + (if w.buf[k + 3] {
                8u8
            } else {
                0u8
            }) + (if w.buf[k + 4] {
                16u8
            } else {
                0u8
            }) + (if w.buf[k + 5] {
                32u8
            } else {
                0u8
            }) + (if w.buf[k + 6] {
                64u8
            } else {
                0u8
            }) + (if w.buf[k + 7] {
                128u8
            } else {
                0u8
            });
            proof {
                lemma_pack_byte(
                    w.buf@[k as int],
                    w.buf@[k + 1],
                    w.buf@[k + 2],
                    w.buf@[k + 3],
                    w.buf@[k + 4],
                    w.buf@[k + 5],
                    w.buf@[k + 6],
                    w.buf@[k + 7],
                    b,
                );
            }
            let ghost prev_out = out@;
            out.push(b);
            proof {
                lemma_bytes_bits_push(prev_out, b);
                lemma_bytes_bits_len(prev_out);
                assert(bytes_bits(out@) == w.buf@.take(k as int) + byte_bits(b));
                assert(bytes_bits(out@) =~= w.buf@.take(k + 8));
            }
            k = k + 8;
        }
        assert(k == keep);
        out
    }
}

/// A byte assembled from eight bit weights carries exactly those bits.
proof fn lemma_pack_byte(
    c0: bool,
    c1: bool,
    c2: bool,
    c3: bool,
    c4: bool,
    c5: bool,
    c6: bool,
    c7: bool,
    b: u8,
)
    requires
        b as int == (if c0 {
            1int
        } else {
            0int
        }) + (if c1 {
            2int
        } else {
            0int
        }) + (if c2 {
            4int
        } else {
            0int
        }) + (if c3 {
            8int
        } else {
            0int
        }) + (if c4 {
            16int
        } else {
            0int
        }) + (if c5 {
            32int
        } else {
            0int
        }) + (if c6 {
            64int
        } else {
            0int
        }) + (if c7 {
            128int
        } else {
            0int
        }),
    ensures
        byte_bits(b) == seq![c0, c1, c2, c3, c4, c5, c6, c7],
{
    assert(byte_bits(b) =~= seq![c0, c1, c2, c3, c4, c5, c6, c7]);
}

} // verus!
