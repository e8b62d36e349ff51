//! Text encodings that ID3v2 frames can declare.
use vstd::prelude::*;

verus! {

/// Text encodings used in ID3v2 frames.
#[derive(Debug, Clone, Copy, PartialEq, Eq, Structural)]
pub enum Encoding {
    /// ISO-8859-1 text encoding, also referred to as Latin-1 encoding.
    Latin1,
    /// UTF-16 text encoding with a byte order mark.
    UTF16,
    /// UTF-16BE text encoding without a byte order mark (ID3v2.4 only).
    UTF16BE,
    /// UTF-8 text encoding (ID3v2.4 only).
    UTF8,
}

/// The byte that stands for an encoding in an encoding field.
pub open spec fn encoding_byte(e: Encoding) -> u8 {
    match e {
        Encoding::Latin1 => 0,
        Encoding::UTF16 => 1,
        Encoding::UTF16BE => 2,
        Encoding::UTF8 => 3,
    }
}

/// The encoding that a byte of an encoding field stands for, if any.
pub open spec fn encoding_of_byte(n: u8) -> Option<Encoding> {
    if n == 0 {
        Some(Encoding::Latin1)
    } else if n == 1 {
        Some(Encoding::UTF16)
    } else if n == 2 {
        Some(Encoding::UTF16BE)
    } else if n == 3 {
        Some(Encoding::UTF8)
    } else {
        None
    }
}

impl Encoding {
    /// Returns the encoding specified by the given byte value in an encoding field of
    /// an ID3v2 frame, if any.
    pub fn from_u8(n: u8) -> (r: Option<Encoding>)
        ensures
            r == encoding_of_byte(n),
            r matches Some(e) ==> encoding_byte(e) == n,
    {
        match n {
            0 => Some(Encoding::Latin1),
            1 => Some(Encoding::UTF16),
            2 => Some(Encoding::UTF16BE),
            3 => Some(Encoding::UTF8),
            _ => None,
        }
    }

    /// Returns the byte that stands for this encoding in an encoding field.
    pub fn as_byte(&self) -> (r: u8)
        ensures
            r == encoding_byte(*self),
            encoding_of_byte(r) == Some(*self),
    {
        match self {
            Encoding::Latin1 => 0,
            Encoding::UTF16 => 1,
            Encoding::UTF16BE => 2,
            Encoding::UTF8 => 3,
        }
    }
}

} // verus!
