//! The decoding pipeline: a packed byte stream is unpacked into bits once,
//! and characters are pulled from it one 7-bit unit at a time, resolving
//! the escape sequence for extension characters.

use vstd::prelude::*;
use crate::Gsm7Error;
use crate::charset::{base_char, decode_base, decode_escape, ext_char, is_ext_code};
use crate::pack::{byte_bits, bytes_bits, lemma_bytes_bits_push, septet_at};

verus! {

/// What pulling characters from a bit stream, from a given position to the
/// end, yields: the characters before the stream stops, the error it stops
/// with if it does not stop cleanly, and the position it stops at.
pub struct DecodeOutcome {
    pub chars: Seq<char>,
    pub err: Option<Gsm7Error>,
    pub end: int,
}

/// The decode state machine, one unit at a time. Fewer than seven bits
/// left is a clean end of stream: trailing pad bits are never decoded. A
/// unit equal to the escape marker obligates a second unit, which must
/// name an extension character; any shortfall or unknown second unit stops
/// the stream with an error.
pub open spec fn decode_outcome(s: Seq<bool>, p: int) -> DecodeOutcome
    decreases s.len() - p when p <= s.len()
{
    if p + 7 > s.len() {
        DecodeOutcome { chars: Seq::empty(), err: None, end: p }
    } else {
        let v = septet_at(s, p);
        if v != 0x1B {
            let rest = decode_outcome(s, p + 7);
            DecodeOutcome { chars: seq![base_char(v)] + rest.chars, err: rest.err, end: rest.end }
        } else if p + 14 > s.len() {
            DecodeOutcome { chars: Seq::empty(), err: Some(Gsm7Error::TruncatedEscape), end: p + 7 }
        } else {
            let w = septet_at(s, p + 7);
            if is_ext_code(w) {
                let rest = decode_outcome(s, p + 14);
                DecodeOutcome { chars: seq![ext_char(w)] + rest.chars, err: rest.err, end: rest.end }
            } else {
                DecodeOutcome { chars: Seq::empty(), err: Some(Gsm7Error::InvalidCode), end: p + 14 }
            }
        }
    }
}

/// Appends the eight bits of one byte to a bit buffer, least significant
/// first.
fn unpack_byte(buf: &mut Vec<bool>, b: u8)
    ensures
        final(buf)@ == old(buf)@ + byte_bits(b),
{
    buf.push(b % 2 == 1);
    buf.push(b / 2 % 2 == 1);
    buf.push(b / 4 % 2 == 1);
    buf.push(b / 8 % 2 == 1);
    buf.push(b / 16 % 2 == 1);
    buf.push(b / 32 % 2 == 1);
    buf.push(b / 64 % 2 == 1);
    buf.push(b / 128 % 2 == 1);
    assert(final(buf)@ =~= old(buf)@ + byte_bits(b));
}

/// Pulls characters out of one packed byte stream; a septet's worth of
/// bits at a time, not restartable after an error.
pub struct Gsm7Reader {
    buf: Vec<bool>,
    pos: usize,
}

impl Gsm7Reader {
    /// The whole bit stream carried by the wrapped bytes.
    pub closed spec fn stream(&self) -> Seq<bool> {
        self.buf@
    }

    /// How many bits have been consumed.
    pub closed spec fn pos(&self) -> int {
        self.pos as int
    }

    /// The reader never runs past the end of its stream.
    pub closed spec fn wf(&self) -> bool {
        self.pos <= self.buf@.len()
    }

    /// Wraps a byte stream, unpacking each byte into its bits, least
    /// significant first.
    pub fn new(reader: Vec<u8>) -> (r: Gsm7Reader)
        ensures
            r.wf(),
            r.stream() == bytes_bits(reader@),
            r.pos() == 0,
    {
        let mut buf: Vec<bool> = Vec::new();
        let mut k: usize = 0;
        while k < reader.len()
            invariant
                k <= reader@.len(),
                buf@ == bytes_bits(reader@.take(k as int)),
            decreases reader@.len() - k,
        {
            let b = reader[k];
            unpack_byte(&mut buf, b);
            proof {
                lemma_bytes_bits_push(reader@.take(k as int), b);
                assert(reader@.take(k as int).push(b) =~= reader@.take(k + 1));
                assert(buf@ =~= bytes_bits(reader@.take(k + 1)));
            }
            k = k + 1;
        }
        assert(reader@.take(reader@.len() as int) =~= reader@);
        Gsm7Reader { buf, pos: 0 }
    }

    /// Reads the next septet, least significant bit first, if at least
    /// seven bits are left; otherwise leaves the position alone.
    fn read_septet(&mut self) -> (r: Option<u8>)
        requires
            old(self).wf(),
        ensures
            final(self).wf(),
            final(self).stream() == old(self).stream(),
            old(self).pos() + 7 <= old(self).stream().len() ==> r is Some && final(self).pos()
                == old(self).pos() + 7 && r->0 < 128 && r->0 as int == septet_at(
                old(self).stream(),
                old(self).pos(),
            ),
            old(self).pos() + 7 > old(self).stream().len() ==> r is None && final(self).pos()
                == old(self).pos(),
    {
        if self.buf.len() - self.pos < 7 {
            return None;
        }
        let p = self.pos;
        let v: u8 = (if self.buf[p] {
            1u8
        } else {
            0u8
        }) + (if self.buf[p + 1] {
            2u8
        } else {
            0u8
        }) + (if self.buf[p + 2] {
            4u8
        } else {
            0u8
        }) + (if self.buf[p + 3] {
            8u8
        } else {
            0u8
        }) + (if self.buf[p + 4] {
            16u8
        } else {
            0u8
        }) + (if self.buf[p + 5] {
            32u8
        } else {
            0u8
        }) + (if self.buf[p + 6] {
            64u8
        } else {
            0u8
        });
        self.pos = p + 7;
        assert(v as int == septet_at(self.buf@, p as int));
        Some(v)
    }

    /// Pulls the next character off the stream. `None` is a clean end of
    /// stream, trailing pad bits included; after an error the position is
    /// past the failing bits and further pulls are not meaningful.
    pub fn next(&mut self) -> (r: Option<Result<char, Gsm7Error>>)
        requires
            old(self).wf(),
        ensures
            final(self).wf(),
            final(self).stream() == old(self).stream(),
            ({
                let s = old(self).stream();
                let p = old(self).pos();
                if p + 7 > s.len() {
                    r is None && final(self).pos() == p
                } else {
                    let v = septet_at(s, p);
                    if v != 0x1B {
                        r == Some(Result::<char, Gsm7Error>::Ok(base_char(v))) && final(self).pos()
                            == p + 7
                    } else if p + 14 > s.len() {
                        r == Some(Result::<char, Gsm7Error>::Err(Gsm7Error::TruncatedEscape))
                            && final(self).pos() == p + 7
                    } else {
                        let w = septet_at(s, p + 7);
                        if is_ext_code(w) {
                            r == Some(Result::<char, Gsm7Error>::Ok(ext_char(w)))
                                && final(self).pos() == p + 14
                        } else {
                            r == Some(Result::<char, Gsm7Error>::Err(Gsm7Error::InvalidCode))
                                && final(self).pos() == p + 14
                        }
                    }
                }
            }),
    {
        let first = match self.read_septet() {
            None => {
                return None;
            },
            Some(v) => v,
        };
        if first != 0x1B {
            return Some(Ok(decode_base(first)));
        }
        let second = match self.read_septet() {
            None => {
                return Some(Err(Gsm7Error::TruncatedEscape));
            },
            Some(v) => v,
        };
        match decode_escape(second) {
            Some(c) => Some(Ok(c)),
            None => Some(Err(Gsm7Error::InvalidCode)),
        }
    }

    /// Pulls characters until the stream ends, handing back everything on
    /// a clean end and the stopping error otherwise.
    pub fn decode_all(&mut self) -> (r: Result<Vec<char>, Gsm7Error>)
        requires
            old(self).wf(),
        ensures
            final(self).wf(),
            final(self).stream() == old(self).stream(),
            ({
                let o = decode_outcome(old(self).stream(), old(self).pos());
                final(self).pos() == o.end && match r {
                    Ok(v) => o.err is None && v@ == o.chars,
                    Err(e) => o.err == Some(e),
                }
            }),
    {
        let mut chars: Vec<char> = Vec::new();
        loop
            invariant
                self.wf(),
                self.stream() == old(self).stream(),
                old(self).pos() <= self.pos(),
                ({
                    let o0 = decode_outcome(old(self).stream(), old(self).pos());
                    let o = decode_outcome(old(self).stream(), self.pos());
                    o0.chars == chars@ + o.chars && o0.err == o.err && o0.end == o.end
                }),
            decreases old(self).stream().len() - self.pos(),
        {
            let ghost s = self.stream();
            let ghost p0 = old(self).pos();
            let ghost p = self.pos();
            match self.next() {
                None => {
                    proof {
                        assert(decode_outcome(s, p).chars =~= Seq::<char>::empty());
                        assert(decode_outcome(s, p0).chars =~= chars@);
                    }
                    return Ok(chars);
                },
                Some(Ok(c)) => {
                    chars.push(c);
                    proof {
                        let o = decode_outcome(s, p);
                        let rest = decode_outcome(s, self.pos());
                        assert(o.chars == seq![c] + rest.chars);
                        assert(chars@ + rest.chars =~= decode_outcome(s, p0).chars);
                    }
                },
                Some(Err(e)) => {
                    return Err(e);
                },
            }
        }
    }
}

} // verus!
