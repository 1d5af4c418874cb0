//! A codec between text and the GSM 7-bit default alphabet's packed wire
//! form: each character becomes one 7-bit code unit (a septet), or an
//! escape marker followed by a second septet for ten extension characters,
//! and the units are packed least-significant-bit first into bytes, with a
//! documented padding rule for the final partial byte.

use vstd::prelude::*;

pub mod charset;
pub mod laws;
pub mod pack;
pub mod reader;
pub mod writer;

pub use crate::reader::Gsm7Reader;
pub use crate::writer::Gsm7Writer;

verus! {

/// The ways a decode or encode step can fail.
#[derive(Clone, Copy, Debug, PartialEq, Eq)]
pub enum Gsm7Error {
    /// An escape marker was read, but the stream ended before a full
    /// second septet could be read.
    TruncatedEscape,
    /// A septet does not resolve to any character: the second septet of an
    /// escape sequence names no extension character.
    InvalidCode,
    /// A character has no representation in either table.
    NotEncodable,
}

} // verus!
