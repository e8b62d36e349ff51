//! Text transcoding between Rust strings and the four ID3v2 text encodings.
use vstd::prelude::*;
use vstd::utf8::*;
use crate::encoding::Encoding;

verus! {

/// The Latin-1 byte for a character: its code point where that is at most 0xFF,
/// else `?`.
pub open spec fn latin1_byte(c: char) -> u8 {
    if (c as u32) <= 0xFF {
        (c as u32) as u8
    } else {
        0x3F
    }
}

/// The Latin-1 encoding of a character sequence.
pub open spec fn latin1_encode(s: Seq<char>) -> Seq<u8> {
    Seq::new(s.len(), |i: int| latin1_byte(s[i]))
}

/// The UTF-16 code units of one character.
pub open spec fn char_utf16(c: char) -> Seq<u16> {
    let v = c as u32;
    if v < 0x10000 {
        seq![v as u16]
    } else {
        seq![(0xD800 + ((v - 0x10000) as u32 >> 10)) as u16, (0xDC00 + ((v - 0x10000) as u32 & 0x3FF)) as u16]
    }
}

/// The UTF-16 code units of a character sequence.
pub open spec fn utf16_of(s: Seq<char>) -> Seq<u16>
    decreases s.len(),
{
    if s.len() == 0 {
        seq![]
    } else {
        utf16_of(s.drop_last()) + char_utf16(s.last())
    }
}

/// Code units written as bytes, low byte first.
pub open spec fn units_le(u: Seq<u16>) -> Seq<u8> {
    Seq::new(2 * u.len(), |i: int| if i % 2 == 0 { (u[i / 2] & 0xFF) as u8 } else { (u[i / 2] >> 8) as u8 })
}

/// Code units written as bytes, high byte first.
pub open spec fn units_be(u: Seq<u16>) -> Seq<u8> {
    Seq::new(2 * u.len(), |i: int| if i % 2 == 0 { (u[i / 2] >> 8) as u8 } else { (u[i / 2] & 0xFF) as u8 })
}

/// Bytes read as code units, low byte first (a trailing odd byte is ignored).
pub open spec fn le_units(b: Seq<u8>) -> Seq<u16> {
    Seq::new(b.len() / 2, |i: int| (b[2 * i] as u16 | (b[2 * i + 1] as u16) << 8) as u16)
}

/// Bytes read as code units, high byte first (a trailing odd byte is ignored).
pub open spec fn be_units(b: Seq<u8>) -> Seq<u16> {
    Seq::new(b.len() / 2, |i: int| ((b[2 * i] as u16) << 8 | b[2 * i + 1] as u16) as u16)
}

/// The characters that a sequence of UTF-16 code units stands for, or `None`
/// where a surrogate is unpaired.
pub open spec fn utf16_decode(u: Seq<u16>) -> Option<Seq<char>>
    decreases u.len(),
{
    if u.len() == 0 {
        Some(seq![])
    } else if u[0] < 0xD800 || u[0] > 0xDFFF {
        match utf16_decode(u.drop_first()) {
            Some(t) => Some(seq![(u[0] as u32) as char] + t),
            None => None,
        }
    } else if u[0] <= 0xDBFF && u.len() >= 2 && 0xDC00 <= u[1] && u[1] <= 0xDFFF {
        match utf16_decode(u.subrange(2, u.len() as int)) {
            Some(t) => Some(seq![surrogate_pair_value(u[0], u[1]) as char] + t),
            None => None,
        }
    } else {
        None
    }
}

/// The scalar value of a surrogate pair.
pub open spec fn surrogate_pair_value(hi: u16, lo: u16) -> u32 {
    (0x10000 + ((((hi - 0xD800) as u32) << 10) | ((lo - 0xDC00) as u32))) as u32
}

/// The bytes before the first zero byte.
pub open spec fn until_nul(b: Seq<u8>) -> Seq<u8>
    decreases b.len(),
{
    if b.len() == 0 {
        b
    } else if b[0] == 0 {
        seq![]
    } else {
        seq![b[0]] + until_nul(b.drop_first())
    }
}

/// What `string_from_utf8` gives for some bytes.
pub open spec fn utf8_text(b: Seq<u8>) -> Option<Seq<char>> {
    if valid_utf8(until_nul(b)) {
        Some(decode_utf8(until_nul(b)))
    } else {
        None
    }
}

/// What `string_from_utf16` gives for some bytes.
pub open spec fn utf16_bom_text(b: Seq<u8>) -> Option<Seq<char>> {
    if b.len() < 2 || b.len() % 2 != 0 {
        None
    } else if b[0] == 0xFF && b[1] == 0xFE {
        utf16_decode(le_units(b.subrange(2, b.len() as int)))
    } else if b[0] == 0xFE && b[1] == 0xFF {
        utf16_decode(be_units(b.subrange(2, b.len() as int)))
    } else {
        None
    }
}

/// The bytes that `encode_string` gives for some text.
pub open spec fn encode_spec(s: Seq<char>, e: Encoding) -> Seq<u8> {
    match e {
        Encoding::Latin1 => latin1_encode(s),
        Encoding::UTF8 => encode_utf8(s),
        Encoding::UTF16 => seq![0xFFu8, 0xFEu8] + units_le(utf16_of(s)),
        Encoding::UTF16BE => units_be(utf16_of(s)),
    }
}

/// The text that `string_from_encoding` reads from some bytes.
pub open spec fn decode_spec(e: Encoding, b: Seq<u8>) -> Option<Seq<char>> {
    match e {
        Encoding::Latin1 => Some(Seq::new(until_nul(b).len(), |i: int| (until_nul(b)[i] as u32) as char)),
        Encoding::UTF8 => utf8_text(b),
        Encoding::UTF16 => utf16_bom_text(b),
        Encoding::UTF16BE => if b.len() % 2 != 0 { None } else { utf16_decode(be_units(b)) },
    }
}

/// Relies on `str::chars`: the characters of a string, in order.
#[verifier::external_body]
fn chars_of(s: &str) -> (r: Vec<char>)
    ensures
        r@ == s@,
{
    s.chars().collect()
}

/// Relies on collecting characters into a `String`: the string holds them in order.
#[verifier::external_body]
pub(crate) fn string_of_chars(v: &[char]) -> (r: String)
    ensures
        r@ == v@,
{
    v.iter().collect()
}

/// Relies on `char::from_u32`: a character exactly for the Unicode scalar values.
#[verifier::external_body]
fn char_from_u32(v: u32) -> (r: Option<char>)
    ensures
        r is Some <==> is_scalar(v),
        r matches Some(c) ==> c == v as char,
{
    char::from_u32(v)
}

/// Relies on `String::from_utf8`: a string exactly for valid UTF-8.
#[verifier::external_body]
fn utf8_string(v: Vec<u8>) -> (r: Option<String>)
    ensures
        r is Some <==> valid_utf8(v@),
        r matches Some(s) ==> s@ == decode_utf8(v@),
{
    String::from_utf8(v).ok()
}

/// The UTF-16 code units of a string.
fn utf16_units(text: &str) -> (r: Vec<u16>)
    ensures
        r@ == utf16_of(text@),
{
    let chars = chars_of(text);
    let mut out: Vec<u16> = Vec::new();
    let mut i: usize = 0;
    assert(chars@.take(0) =~= Seq::<char>::empty());
    while i < chars.len()
        invariant
            i <= chars@.len(),
            out@ == utf16_of(chars@.take(i as int)),
        decreases chars@.len() - i,
    {
        let c = chars[i];
        let v = c as u32;
        proof {
            char_is_scalar(c);
        }
        if v < 0x10000 {
            out.push(v as u16);
        } else {
            let w = v - 0x10000;
            assert(w >> 10 <= 0x3FF && w & 0x3FF <= 0x3FF) by (bit_vector)
                requires
                    w <= 0xFFFFF;
            out.push((0xD800 + (w >> 10)) as u16);
            out.push((0xDC00 + (w & 0x3FF)) as u16);
        }
        assert(chars@.take(i + 1).drop_last() =~= chars@.take(i as int));
        i = i + 1;
        assert(out@ =~= utf16_of(chars@.take(i as int)));
    }
    assert(chars@.take(i as int) =~= chars@);
    out
}

/// Returns a UTF-16LE vector representation of the string.
pub fn string_to_utf16le(text: &str) -> (r: Vec<u8>)
    ensures
        r@ == units_le(utf16_of(text@)),
{
    let units = utf16_units(text);
    let mut out: Vec<u8> = Vec::new();
    let mut i: usize = 0;
    while i < units.len()
        invariant
            i <= units@.len(),
            out@ =~= units_le(units@.take(i as int)),
        decreases units@.len() - i,
    {
        let u = units[i];
        out.push((u & 0xFF) as u8);
        out.push((u >> 8) as u8);
        i = i + 1;
        assert(out@ =~= units_le(units@.take(i as int)));
    }
    assert(units@.take(i as int) =~= units@);
    out
}

/// Returns a UTF-16BE vector representation of the string.
pub fn string_to_utf16be(text: &str) -> (r: Vec<u8>)
    ensures
        r@ == units_be(utf16_of(text@)),
{
    let units = utf16_units(text);
    let mut out: Vec<u8> = Vec::new();
    let mut i: usize = 0;
    while i < units.len()
        invariant
            i <= units@.len(),
            out@ =~= units_be(units@.take(i as int)),
        decreases units@.len() - i,
    {
        let u = units[i];
        out.push((u >> 8) as u8);
        out.push((u & 0xFF) as u8);
        i = i + 1;
        assert(out@ =~= units_be(units@.take(i as int)));
    }
    assert(units@.take(i as int) =~= units@);
    out
}

/// Returns a UTF-16 vector representation of the string, little-endian after a
/// byte order mark.
pub fn string_to_utf16(text: &str) -> (r: Vec<u8>)
    ensures
        r@ == seq![0xFFu8, 0xFEu8] + units_le(utf16_of(text@)),
{
    let mut out: Vec<u8> = vec![0xFF, 0xFE];
    let mut body = string_to_utf16le(text);
    out.append(&mut body);
    assert(out@ =~= seq![0xFFu8, 0xFEu8] + units_le(utf16_of(text@)));
    out
}

/// Returns the text converted to the given encoding. Characters that Latin-1
/// cannot represent become `?`.
pub fn encode_string(s: &str, encoding: Encoding) -> (r: Vec<u8>)
    ensures
        r@ == encode_spec(s@, encoding),
{
    match encoding {
        Encoding::Latin1 => {
            let chars = chars_of(s);
            let mut out: Vec<u8> = Vec::new();
            let mut i: usize = 0;
            while i < chars.len()
                invariant
                    i <= chars@.len(),
                    out@ =~= latin1_encode(chars@.take(i as int)),
                decreases chars@.len() - i,
            {
                let v = chars[i] as u32;
                if v <= 0xFF {
                    out.push(v as u8);
                } else {
                    out.push(0x3F);
                }
                i = i + 1;
                assert(out@ =~= latin1_encode(chars@.take(i as int)));
            }
            assert(chars@.take(i as int) =~= chars@);
            out
        },
        Encoding::UTF8 => vstd::slice::slice_to_vec(s.as_bytes()),
        Encoding::UTF16 => string_to_utf16(s),
        Encoding::UTF16BE => string_to_utf16be(s),
    }
}

/// The bytes of `data` before its first zero byte.
fn take_until_nul(data: &[u8]) -> (r: Vec<u8>)
    ensures
        r@ == until_nul(data@),
{
    let n = data.len();
    let mut out: Vec<u8> = Vec::new();
    let mut i: usize = 0;
    assert(data@.subrange(0, n as int) =~= data@);
    while i < n && data[i] != 0
        invariant
            n == data@.len(),
            i <= n,
            until_nul(data@) == out@ + until_nul(data@.subrange(i as int, n as int)),
        decreases n - i,
    {
        let ghost rest = data@.subrange(i as int, n as int);
        assert(rest.drop_first() =~= data@.subrange(i + 1, n as int));
        out.push(data[i]);
        i = i + 1;
        assert(until_nul(data@) =~= out@ + until_nul(data@.subrange(i as int, n as int)));
    }
    let ghost rest = data@.subrange(i as int, n as int);
    assert(until_nul(rest) =~= Seq::<u8>::empty());
    assert(out@ + until_nul(rest) =~= out@);
    out
}

/// Returns a string created from the bytes using UTF-8 encoding, up to the
/// first zero byte. Returns `None` if those bytes are not valid UTF-8.
pub fn string_from_utf8(data: &[u8]) -> (r: Option<String>)
    ensures
        r is Some <==> utf8_text(data@) is Some,
        r matches Some(s) ==> utf8_text(data@) == Some(s@),
{
    let bytes = take_until_nul(data);
    utf8_string(bytes)
}

/// Decodes a sequence of UTF-16 code units.
fn decode_units(units: &[u16]) -> (r: Option<String>)
    ensures
        r is Some <==> utf16_decode(units@) is Some,
        r matches Some(s) ==> utf16_decode(units@) == Some(s@),
{
    let n = units.len();
    let mut out: Vec<char> = Vec::new();
    let mut i: usize = 0;
    assert(units@.subrange(0, n as int) =~= units@);
    while i < n
        invariant
            n == units@.len(),
            i <= n,
            utf16_decode(units@) == (match utf16_decode(units@.subrange(i as int, n as int)) {
                Some(t) => Some(out@ + t),
                None => None::<Seq<char>>,
            }),
        decreases n - i,
    {
        let ghost rest = units@.subrange(i as int, n as int);
        let u = units[i];
        if u < 0xD800 || u > 0xDFFF {
            assert(rest.drop_first() =~= units@.subrange(i + 1, n as int));
            let c = char_from_u32(u as u32);
            match c {
                Some(c) => {
                    out.push(c);
                },
                None => {
                    assert(false);
                    return None;
                },
            }
            i = i + 1;
            proof {
                let ghost t = utf16_decode(units@.subrange(i as int, n as int));
                if t is Some {
                    assert(out@ + t->0 =~= (out@.drop_last()) + (seq![(u as u32) as char] + t->0));
                }
            }
        } else if u <= 0xDBFF && i + 1 < n && 0xDC00 <= units[i + 1] && units[i + 1] <= 0xDFFF {
            let lo = units[i + 1];
            assert(rest.subrange(2, rest.len() as int) =~= units@.subrange(i + 2, n as int));
            let hi_bits: u32 = (u - 0xD800) as u32;
            let lo_bits: u32 = (lo - 0xDC00) as u32;
            assert((hi_bits << 10) | lo_bits <= 0xFFFFF) by (bit_vector)
                requires
                    hi_bits <= 0x3FF,
                    lo_bits <= 0x3FF;
            let v: u32 = 0x10000 + ((hi_bits << 10) | lo_bits);
            assert(v == surrogate_pair_value(u, lo));
            assert(0x10000 <= v && v <= 0x10FFFF) by (bit_vector)
                requires
                    v == (0x10000 + ((((u - 0xD800) as u32) << 10) | ((lo - 0xDC00) as u32))) as u32,
                    0xD800 <= u <= 0xDBFF,
                    0xDC00 <= lo <= 0xDFFF;
            let c = char_from_u32(v);
            match c {
                Some(c) => {
                    out.push(c);
                },
                None => {
                    return None;
                },
            }
            i = i + 2;
            proof {
                let ghost t = utf16_decode(units@.subrange(i as int, n as int));
                if t is Some {
                    assert(out@ + t->0 =~= (out@.drop_last()) + (seq![v as char] + t->0));
                }
            }
        } else {
            return None;
        }
    }
    assert(units@.subrange(n as int, n as int) =~= Seq::<u16>::empty());
    assert(out@ + Seq::<char>::empty() =~= out@);
    Some(string_of_chars(out.as_slice()))
}

/// Returns a string created from the bytes using UTF-16LE encoding.
/// Returns `None` if the bytes are not a valid UTF-16LE string.
pub fn string_from_utf16le(data: &[u8]) -> (r: Option<String>)
    ensures
        r is Some <==> (data@.len() % 2 == 0 && utf16_decode(le_units(data@)) is Some),
        r matches Some(s) ==> utf16_decode(le_units(data@)) == Some(s@),
{
    if data.len() % 2 != 0 {
        return None;
    }
    let mut units: Vec<u16> = Vec::new();
    let mut i: usize = 0;
    while i < data.len() / 2
        invariant
            data@.len() % 2 == 0,
            i <= data@.len() / 2,
            units@ =~= le_units(data@).take(i as int),
        decreases data@.len() / 2 - i,
    {
        units.push((data[2 * i] as u16 | (data[2 * i + 1] as u16) << 8) as u16);
        i = i + 1;
        assert(units@ =~= le_units(data@).take(i as int));
    }
    assert(le_units(data@).take(i as int) =~= le_units(data@));
    decode_units(units.as_slice())
}

/// Returns a string created from the bytes using UTF-16BE encoding.
/// Returns `None` if the bytes are not a valid UTF-16BE string.
pub fn string_from_utf16be(data: &[u8]) -> (r: Option<String>)
    ensures
        r is Some <==> (data@.len() % 2 == 0 && utf16_decode(be_units(data@)) is Some),
        r matches Some(s) ==> utf16_decode(be_units(data@)) == Some(s@),
{
    if data.len() % 2 != 0 {
        return None;
    }
    let mut units: Vec<u16> = Vec::new();
    let mut i: usize = 0;
    while i < data.len() / 2
        invariant
            data@.len() % 2 == 0,
            i <= data@.len() / 2,
            units@ =~= be_units(data@).take(i as int),
        decreases data@.len() / 2 - i,
    {
        units.push(((data[2 * i] as u16) << 8 | data[2 * i + 1] as u16) as u16);
        i = i + 1;
        assert(units@ =~= be_units(data@).take(i as int));
    }
    assert(be_units(data@).take(i as int) =~= be_units(data@));
    decode_units(units.as_slice())
}

/// Returns a string created from the bytes using UTF-16 with a byte order
/// mark, `FF FE` for little-endian or `FE FF` for big-endian. Returns `None`
/// without a byte order mark, or if the bytes are not a valid UTF-16 string.
pub fn string_from_utf16(data: &[u8]) -> (r: Option<String>)
    ensures
        r is Some <==> utf16_bom_text(data@) is Some,
        r matches Some(s) ==> utf16_bom_text(data@) == Some(s@),
{
    if data.len() < 2 || data.len() % 2 != 0 {
        return None;
    }
    let body = slice_from(data, 2);
    if data[0] == 0xFF && data[1] == 0xFE {
        string_from_utf16le(body.as_slice())
    } else if data[0] == 0xFE && data[1] == 0xFF {
        string_from_utf16be(body.as_slice())
    } else {
        None
    }
}

/// The bytes of `data` from `start` on.
pub fn slice_from(data: &[u8], start: usize) -> (r: Vec<u8>)
    requires
        start <= data@.len(),
    ensures
        r@ == data@.subrange(start as int, data@.len() as int),
{
    let mut out: Vec<u8> = Vec::new();
    let mut i: usize = start;
    while i < data.len()
        invariant
            start <= i <= data@.len(),
            out@ =~= data@.subrange(start as int, i as int),
        decreases data@.len() - i,
    {
        out.push(data[i]);
        i = i + 1;
        assert(out@ =~= data@.subrange(start as int, i as int));
    }
    out
}

/// Returns the text of the bytes in the specified encoding. Latin-1 and UTF-8
/// text ends at the first zero byte. Returns `None` if the bytes are not valid
/// in that encoding.
pub fn string_from_encoding(encoding: Encoding, data: &[u8]) -> (r: Option<String>)
    ensures
        r is Some <==> decode_spec(encoding, data@) is Some,
        r matches Some(s) ==> decode_spec(encoding, data@) == Some(s@),
{
    match encoding {
        Encoding::Latin1 => {
            let bytes = take_until_nul(data);
            let mut chars: Vec<char> = Vec::new();
            let mut i: usize = 0;
            while i < bytes.len()
                invariant
                    i <= bytes@.len(),
                    bytes@ == until_nul(data@),
                    chars@ =~= Seq::new(i as nat, |k: int| (bytes@[k] as u32) as char),
                decreases bytes@.len() - i,
            {
                let b = bytes[i];
                let c = char_from_u32(b as u32);
                match c {
                    Some(c) => chars.push(c),
                    None => {
                        assert(false);
                        return None;
                    },
                }
                i = i + 1;
                assert(chars@ =~= Seq::new(i as nat, |k: int| (bytes@[k] as u32) as char));
            }
            Some(string_of_chars(chars.as_slice()))
        },
        Encoding::UTF8 => string_from_utf8(data),
        Encoding::UTF16 => string_from_utf16(data),
        Encoding::UTF16BE => string_from_utf16be(data),
    }
}

/// The character for an ASCII decimal digit code.
pub(crate) fn digit_char(v: u32) -> (r: char)
    requires
        48 <= v <= 57,
    ensures
        r == v as char,
{
    match char_from_u32(v) {
        Some(c) => c,
        None => {
            proof {
                assert(is_scalar(v));
            }
            '0'
        },
    }
}

/// The characters of a string, in order.
pub(crate) fn chars_of_string(s: &String) -> (r: Vec<char>)
    ensures
        r@ == s@,
{
    chars_of(s.as_str())
}

} // verus!
