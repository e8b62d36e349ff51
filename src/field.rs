//! The atomic fields that ID3v2 frames are made of, and their byte codec.
use vstd::prelude::*;
use crate::bignum::BigNum;
use crate::encoding::{Encoding, encoding_byte, encoding_of_byte};
use crate::error::{Error, ErrorKind, unexpected_end};
use crate::util::{delim_len_spec, copy_range};
use crate::bignum::strip_zeros;

verus! {

/// The various types of primitive data which may be encoded in a field.
#[derive(Debug, Clone, Copy, PartialEq, Eq, Structural)]
pub enum FieldType {
    /// One byte naming the text encoding of the string fields that follow.
    TextEncoding,
    /// A Latin-1 string without newlines.
    Latin1,
    /// A Latin-1 string that may hold newlines.
    Latin1Full,
    /// A list of Latin-1 strings.
    Latin1List,
    /// A string in the frame's encoding, without newlines.
    String,
    /// A string in the frame's encoding that may hold newlines.
    StringFull,
    /// A list of strings in the frame's encoding.
    StringList,
    /// A three-byte ISO 639-2 language code.
    Language,
    /// A three-byte ID3v2.2 frame identifier.
    FrameIdV2,
    /// A four-byte ID3v2.3/4 frame identifier.
    FrameIdV34,
    /// A one-byte integer.
    Int8,
    /// A two-byte big-endian integer.
    Int16,
    /// A three-byte big-endian integer.
    Int24,
    /// A four-byte big-endian integer.
    Int32,
    /// A counter of any length.
    Int32Plus,
    /// Opaque bytes up to the end of the frame.
    BinaryData,
}

impl FieldType {
    /// Get the encoding fixed by the field type itself, if any: Latin-1 for the
    /// Latin-1 kinds.
    pub fn get_encoding(&self) -> (r: Option<Encoding>)
        ensures
            r == (match *self {
                FieldType::Latin1 | FieldType::Latin1Full | FieldType::Latin1List => Some(Encoding::Latin1),
                _ => None::<Encoding>,
            }),
    {
        match self {
            FieldType::Latin1 | FieldType::Latin1Full | FieldType::Latin1List => Some(Encoding::Latin1),
            _ => None,
        }
    }

    /// Indicates whether fields of this type contain a list of multiple pieces of data.
    pub fn is_list(&self) -> (r: bool)
        ensures
            r <==> (*self == FieldType::Latin1List || *self == FieldType::StringList),
    {
        match self {
            FieldType::Latin1List | FieldType::StringList => true,
            _ => false,
        }
    }

    /// Get a single character shorthand for this type of field. Lists share
    /// the character of their element type; capital letters mark strings that
    /// may hold newlines.
    pub fn as_char(&self) -> (r: char)
        ensures
            r == field_type_char(*self),
    {
        match self {
            FieldType::TextEncoding => 'e',
            FieldType::Latin1 => 'a',
            FieldType::Latin1Full => 'A',
            FieldType::Latin1List => 'a',
            FieldType::String => 's',
            FieldType::StringFull => 'S',
            FieldType::StringList => 's',
            FieldType::Language => 'l',
            FieldType::FrameIdV2 => 'f',
            FieldType::FrameIdV34 => 'f',
            FieldType::Int8 => '1',
            FieldType::Int16 => '2',
            FieldType::Int24 => '3',
            FieldType::Int32 => '4',
            FieldType::Int32Plus => 'c',
            FieldType::BinaryData => 'd',
        }
    }

    /// Get a short name which describes what this kind of field is.
    pub fn name(&self) -> (r: &'static str)
        ensures
            r == field_type_name(*self),
    {
        match self {
            FieldType::TextEncoding => "textencoding",
            FieldType::Latin1 => "latin1 string",
            FieldType::Latin1Full => "latin1 string with newlines",
            FieldType::Latin1List => "latin1 strings",
            FieldType::String => "encoded string",
            FieldType::StringFull => "encoded string with newlines",
            FieldType::StringList => "encoded strings",
            FieldType::Language => "language code",
            FieldType::FrameIdV2 => "frame ID",
            FieldType::FrameIdV34 => "frame ID",
            FieldType::Int8 => "byte",
            FieldType::Int16 => "int16",
            FieldType::Int24 => "int24",
            FieldType::Int32 => "int32",
            FieldType::Int32Plus => "counter",
            FieldType::BinaryData => "data",
        }
    }
}

/// The shorthand character of a field type.
pub open spec fn field_type_char(t: FieldType) -> char {
    match t {
        FieldType::TextEncoding => 'e',
        FieldType::Latin1 => 'a',
        FieldType::Latin1Full => 'A',
        FieldType::Latin1List => 'a',
        FieldType::String => 's',
        FieldType::StringFull => 'S',
        FieldType::StringList => 's',
        FieldType::Language => 'l',
        FieldType::FrameIdV2 => 'f',
        FieldType::FrameIdV34 => 'f',
        FieldType::Int8 => '1',
        FieldType::Int16 => '2',
        FieldType::Int24 => '3',
        FieldType::Int32 => '4',
        FieldType::Int32Plus => 'c',
        FieldType::BinaryData => 'd',
    }
}

/// The short name of a field type.
pub open spec fn field_type_name(t: FieldType) -> &'static str {
    match t {
        FieldType::TextEncoding => "textencoding",
        FieldType::Latin1 => "latin1 string",
        FieldType::Latin1Full => "latin1 string with newlines",
        FieldType::Latin1List => "latin1 strings",
        FieldType::String => "encoded string",
        FieldType::StringFull => "encoded string with newlines",
        FieldType::StringList => "encoded strings",
        FieldType::Language => "language code",
        FieldType::FrameIdV2 => "frame ID",
        FieldType::FrameIdV34 => "frame ID",
        FieldType::Int8 => "byte",
        FieldType::Int16 => "int16",
        FieldType::Int24 => "int24",
        FieldType::Int32 => "int32",
        FieldType::Int32Plus => "counter",
        FieldType::BinaryData => "data",
    }
}

/// A parsed ID3v2 field, the atomic component from which frames are composed.
#[derive(Debug, Clone, PartialEq, Eq)]
pub enum Field {
    /// The text encoding of the string fields that follow.
    TextEncoding(Encoding),
    /// A Latin-1 string without newlines.
    Latin1(Vec<u8>),
    /// A Latin-1 string that may hold newlines.
    Latin1Full(Vec<u8>),
    /// A list of Latin-1 strings.
    Latin1List(Vec<Vec<u8>>),
    /// An encoded string without newlines.
    String(Vec<u8>),
    /// An encoded string that may hold newlines.
    StringFull(Vec<u8>),
    /// A list of encoded strings.
    StringList(Vec<Vec<u8>>),
    /// A language code.
    Language([u8; 3]),
    /// An ID3v2.2 frame identifier.
    FrameIdV2([u8; 3]),
    /// An ID3v2.3/4 frame identifier.
    FrameIdV34([u8; 4]),
    /// A one-byte integer.
    Int8(u8),
    /// A two-byte integer, most significant byte first.
    Int16(u8, u8),
    /// A three-byte integer, most significant byte first.
    Int24(u8, u8, u8),
    /// A four-byte integer, most significant byte first.
    Int32(u8, u8, u8, u8),
    /// A counter.
    Int32Plus(BigNum),
    /// Opaque bytes.
    BinaryData(Vec<u8>),
}

/// The mathematical content of a field.
pub enum FieldValue {
    TextEncoding(Encoding),
    Latin1(Seq<u8>),
    Latin1Full(Seq<u8>),
    Latin1List(Seq<Seq<u8>>),
    Str(Seq<u8>),
    StrFull(Seq<u8>),
    StrList(Seq<Seq<u8>>),
    Language(Seq<u8>),
    FrameIdV2(Seq<u8>),
    FrameIdV34(Seq<u8>),
    Int8(u8),
    Int16(u8, u8),
    Int24(u8, u8, u8),
    Int32(u8, u8, u8, u8),
    Int32Plus(Seq<u8>),
    BinaryData(Seq<u8>),
}

/// The contents of a list of byte strings.
pub open spec fn list_view(l: Seq<Vec<u8>>) -> Seq<Seq<u8>> {
    Seq::new(l.len(), |i: int| l[i]@)
}

impl View for Field {
    type V = FieldValue;

    open spec fn view(&self) -> FieldValue {
        match self {
            Field::TextEncoding(e) => FieldValue::TextEncoding(*e),
            Field::Latin1(s) => FieldValue::Latin1(s@),
            Field::Latin1Full(s) => FieldValue::Latin1Full(s@),
            Field::Latin1List(l) => FieldValue::Latin1List(list_view(l@)),
            Field::String(s) => FieldValue::Str(s@),
            Field::StringFull(s) => FieldValue::StrFull(s@),
            Field::StringList(l) => FieldValue::StrList(list_view(l@)),
            Field::Language(a) => FieldValue::Language(a@),
            Field::FrameIdV2(a) => FieldValue::FrameIdV2(a@),
            Field::FrameIdV34(a) => FieldValue::FrameIdV34(a@),
            Field::Int8(a) => FieldValue::Int8(*a),
            Field::Int16(a, b) => FieldValue::Int16(*a, *b),
            Field::Int24(a, b, c) => FieldValue::Int24(*a, *b, *c),
            Field::Int32(a, b, c, d) => FieldValue::Int32(*a, *b, *c, *d),
            Field::Int32Plus(n) => FieldValue::Int32Plus(n.limbs()),
            Field::BinaryData(s) => FieldValue::BinaryData(s@),
        }
    }
}

/// The kind of a field value.
pub open spec fn value_type(f: FieldValue) -> FieldType {
    match f {
        FieldValue::TextEncoding(_) => FieldType::TextEncoding,
        FieldValue::Latin1(_) => FieldType::Latin1,
        FieldValue::Latin1Full(_) => FieldType::Latin1Full,
        FieldValue::Latin1List(_) => FieldType::Latin1List,
        FieldValue::Str(_) => FieldType::String,
        FieldValue::StrFull(_) => FieldType::StringFull,
        FieldValue::StrList(_) => FieldType::StringList,
        FieldValue::Language(_) => FieldType::Language,
        FieldValue::FrameIdV2(_) => FieldType::FrameIdV2,
        FieldValue::FrameIdV34(_) => FieldType::FrameIdV34,
        FieldValue::Int8(..) => FieldType::Int8,
        FieldValue::Int16(..) => FieldType::Int16,
        FieldValue::Int24(..) => FieldType::Int24,
        FieldValue::Int32(..) => FieldType::Int32,
        FieldValue::Int32Plus(_) => FieldType::Int32Plus,
        FieldValue::BinaryData(_) => FieldType::BinaryData,
    }
}

/// `n` zero bytes.
pub open spec fn zeros(n: nat) -> Seq<u8> {
    Seq::new(n, |i: int| 0u8)
}

/// The items of a list joined by a delimiter of `d` zero bytes.
pub open spec fn join(l: Seq<Seq<u8>>, d: nat) -> Seq<u8>
    decreases l.len(),
{
    if l.len() == 0 {
        seq![]
    } else if l.len() == 1 {
        l[0]
    } else {
        l[0] + zeros(d) + join(l.drop_first(), d)
    }
}

/// Joining one more item appends a delimiter and the item.
pub proof fn lemma_join_push(l: Seq<Seq<u8>>, x: Seq<u8>, d: nat)
    requires
        l.len() >= 1,
    ensures
        join(l.push(x), d) == join(l, d) + zeros(d) + x,
    decreases l.len(),
{
    if l.len() == 1 {
        assert(l.push(x).drop_first() =~= seq![x]);
        assert(join(seq![x], d) == x);
    } else {
        assert(l.push(x).drop_first() =~= l.drop_first().push(x));
        lemma_join_push(l.drop_first(), x, d);
    }
}

/// The delimiter length of a field type's strings under an encoding.
pub open spec fn type_delim(t: FieldType, enc: Encoding) -> nat {
    match t {
        FieldType::Latin1 | FieldType::Latin1Full | FieldType::Latin1List => 1,
        _ => delim_len_spec(enc),
    }
}

/// The bytes a field is written as: strings get a trailing delimiter unless
/// they are the last field; list items are joined by delimiters, with none
/// after the last item.
pub open spec fn field_bytes(f: FieldValue, enc: Encoding, is_last: bool) -> Seq<u8> {
    let d = type_delim(value_type(f), enc);
    let tail = if is_last { seq![] } else { zeros(d) };
    match f {
        FieldValue::TextEncoding(e) => seq![encoding_byte(e)],
        FieldValue::Latin1(s) => s + tail,
        FieldValue::Latin1Full(s) => s + tail,
        FieldValue::Latin1List(l) => join(l, d),
        FieldValue::Str(s) => s + tail,
        FieldValue::StrFull(s) => s + tail,
        FieldValue::StrList(l) => join(l, d),
        FieldValue::Language(a) => a,
        FieldValue::FrameIdV2(a) => a,
        FieldValue::FrameIdV34(a) => a,
        FieldValue::Int8(a) => seq![a],
        FieldValue::Int16(a, b) => seq![a, b],
        FieldValue::Int24(a, b, c) => seq![a, b, c],
        FieldValue::Int32(a, b, c, d4) => seq![a, b, c, d4],
        FieldValue::Int32Plus(n) => n,
        FieldValue::BinaryData(s) => s,
    }
}

/// Appends `n` zero bytes.
fn push_zeros(out: &mut Vec<u8>, n: usize)
    ensures
        final(out)@ == old(out)@ + zeros(n as nat),
{
    let ghost start = out@;
    let mut i: usize = 0;
    while i < n
        invariant
            i <= n,
            out@ =~= start + zeros(i as nat),
        decreases n - i,
    {
        out.push(0);
        i = i + 1;
        assert(out@ =~= start + zeros(i as nat));
    }
}

/// Appends bytes.
fn push_all(out: &mut Vec<u8>, data: &[u8])
    ensures
        final(out)@ == old(out)@ + data@,
{
    let ghost start = out@;
    let mut i: usize = 0;
    while i < data.len()
        invariant
            i <= data@.len(),
            out@ =~= start + data@.subrange(0, i as int),
        decreases data@.len() - i,
    {
        out.push(data[i]);
        i = i + 1;
        assert(out@ =~= start + data@.subrange(0, i as int));
    }
    assert(data@.subrange(0, i as int) =~= data@);
}

/// Appends the items of a list joined by `d` zero bytes.
fn push_joined(out: &mut Vec<u8>, l: &Vec<Vec<u8>>, d: usize)
    ensures
        final(out)@ == old(out)@ + join(list_view(l@), d as nat),
{
    let ghost start = out@;
    let mut i: usize = 0;
    assert(list_view(l@).take(0) =~= Seq::<Seq<u8>>::empty());
    while i < l.len()
        invariant
            i <= l@.len(),
            out@ == start + join(list_view(l@).take(i as int), d as nat),
        decreases l@.len() - i,
    {
        let ghost lv = list_view(l@).take(i + 1);
        assert(lv.drop_last() =~= list_view(l@).take(i as int));
        assert(lv =~= list_view(l@).take(i as int).push(l@[i as int]@));
        proof {
            if i > 0 {
                lemma_join_push(list_view(l@).take(i as int), l@[i as int]@, d as nat);
            }
        }
        if i > 0 {
            push_zeros(out, d);
        }
        push_all(out, l[i].as_slice());
        i = i + 1;
        proof {
            if i == 1 {
                assert(join(lv, d as nat) == lv[0]);
                assert(join(list_view(l@).take(0), d as nat) =~= Seq::<u8>::empty());
            }
        }
        assert(out@ =~= start + join(list_view(l@).take(i as int), d as nat));
    }
    assert(list_view(l@).take(i as int) =~= list_view(l@));
}

impl Field {
    /// The kind of this field.
    pub fn field_type(&self) -> (r: FieldType)
        ensures
            r == value_type(self@),
    {
        match self {
            Field::TextEncoding(_) => FieldType::TextEncoding,
            Field::Latin1(_) => FieldType::Latin1,
            Field::Latin1Full(_) => FieldType::Latin1Full,
            Field::Latin1List(_) => FieldType::Latin1List,
            Field::String(_) => FieldType::String,
            Field::StringFull(_) => FieldType::StringFull,
            Field::StringList(_) => FieldType::StringList,
            Field::Language(_) => FieldType::Language,
            Field::FrameIdV2(_) => FieldType::FrameIdV2,
            Field::FrameIdV34(_) => FieldType::FrameIdV34,
            Field::Int8(..) => FieldType::Int8,
            Field::Int16(..) => FieldType::Int16,
            Field::Int24(..) => FieldType::Int24,
            Field::Int32(..) => FieldType::Int32,
            Field::Int32Plus(_) => FieldType::Int32Plus,
            Field::BinaryData(_) => FieldType::BinaryData,
        }
    }

    /// Appends the bytes of the field to `out`. String fields are written in
    /// `encoding`; a string or list that is not the last field of its frame is
    /// followed by the encoding's delimiter.
    pub fn serialize(&self, out: &mut Vec<u8>, encoding: Encoding, is_last: bool)
        ensures
            final(out)@ == old(out)@ + field_bytes(self@, encoding, is_last),
    {
        let ghost start = out@;
        let d: usize = match self {
            Field::Latin1(_) | Field::Latin1Full(_) | Field::Latin1List(_) => 1,
            _ => crate::util::delim_len(encoding),
        };
        assert(d == type_delim(value_type(self@), encoding));
        match self {
            Field::TextEncoding(e) => {
                out.push(e.as_byte());
            },
            Field::Latin1(s) | Field::Latin1Full(s) | Field::String(s) | Field::StringFull(s) => {
                push_all(out, s.as_slice());
                if !is_last {
                    push_zeros(out, d);
                }
            },
            Field::Latin1List(l) | Field::StringList(l) => {
                push_joined(out, l, d);
            },
            Field::Language(a) | Field::FrameIdV2(a) => {
                push_all(out, a.as_slice());
            },
            Field::FrameIdV34(a) => {
                push_all(out, a.as_slice());
            },
            Field::Int8(a) => {
                out.push(*a);
            },
            Field::Int16(a, b) => {
                out.push(*a);
                out.push(*b);
            },
            Field::Int24(a, b, c) => {
                out.push(*a);
                out.push(*b);
                out.push(*c);
            },
            Field::Int32(a, b, c, d4) => {
                out.push(*a);
                out.push(*b);
                out.push(*c);
                out.push(*d4);
            },
            Field::Int32Plus(n) => {
                push_all(out, n.as_bytes());
            },
            Field::BinaryData(s) => {
                push_all(out, s.as_slice());
            },
        }
        assert(out@ =~= start + field_bytes(self@, encoding, is_last));
    }
}

/// Whether a delimiter of `d` zero bytes (one or two) stands at `pos`.
pub open spec fn zero_unit(data: Seq<u8>, pos: nat, d: nat) -> bool {
    pos + d <= data.len() && data[pos as int] == 0 && (d < 2 || data[pos as int + 1] == 0)
}

/// The first position from `pos` on, in steps of `d`, where `d` zero bytes stand.
pub open spec fn scan(data: Seq<u8>, d: nat, pos: nat) -> Option<nat>
    decreases data.len() - pos,
{
    if d == 0 || pos + d > data.len() {
        None
    } else if zero_unit(data, pos, d) {
        Some(pos)
    } else {
        scan(data, d, pos + d)
    }
}

/// The strings from `pos` to the end of `data`, split at delimiters of `d`
/// zero bytes; a delimiter at the very end ends the last string.
pub open spec fn split_from(data: Seq<u8>, d: nat, pos: nat) -> Seq<Seq<u8>>
    decreases data.len() - pos,
{
    if pos >= data.len() {
        seq![]
    } else {
        match scan(data, d, pos) {
            None => seq![data.subrange(pos as int, data.len() as int)],
            Some(p) => if p + d > pos && p + d <= data.len() {
                seq![data.subrange(pos as int, p as int)] + split_from(data, d, p + d)
            } else {
                seq![]
            },
        }
    }
}

proof fn lemma_scan_bounds(data: Seq<u8>, d: nat, pos: nat)
    ensures
        scan(data, d, pos) matches Some(p) ==> pos <= p && p + d <= data.len() && d > 0 && zero_unit(data, p, d),
    decreases data.len() - pos,
{
    if d == 0 || pos + d > data.len() {
    } else if zero_unit(data, pos, d) {
    } else {
        lemma_scan_bounds(data, d, pos + d);
    }
}

/// The items of a list field read from `pos` on: one empty string where no
/// bytes are left, else the strings between delimiters.
pub open spec fn list_items(data: Seq<u8>, d: nat, pos: nat) -> Seq<Seq<u8>> {
    if pos >= data.len() {
        seq![seq![]]
    } else {
        split_from(data, d, pos)
    }
}

/// A string-like field value of kind `t` holding `s`.
pub open spec fn string_value(t: FieldType, s: Seq<u8>) -> FieldValue {
    match t {
        FieldType::Latin1 => FieldValue::Latin1(s),
        FieldType::Latin1Full => FieldValue::Latin1Full(s),
        FieldType::StringFull => FieldValue::StrFull(s),
        _ => FieldValue::Str(s),
    }
}

/// The width of a fixed-width field type.
pub open spec fn fixed_width(t: FieldType) -> nat {
    match t {
        FieldType::TextEncoding => 1,
        FieldType::Language => 3,
        FieldType::FrameIdV2 => 3,
        FieldType::FrameIdV34 => 4,
        FieldType::Int8 => 1,
        FieldType::Int16 => 2,
        FieldType::Int24 => 3,
        FieldType::Int32 => 4,
        _ => 0,
    }
}

/// The field of kind `t` read at `pos` of a frame body, and the position after
/// it, or `None` where the body is malformed. `enc` is the encoding declared by
/// an earlier encoding field; `is_last` tells whether the field ends the frame.
pub open spec fn parse_field_spec(t: FieldType, enc: Encoding, data: Seq<u8>, pos: nat, is_last: bool) -> Option<(FieldValue, nat)> {
    let len = data.len();
    let d = type_delim(t, enc);
    let w = fixed_width(t);
    match t {
        FieldType::Latin1 | FieldType::Latin1Full | FieldType::String | FieldType::StringFull => match scan(data, d, pos) {
            Some(p) => Some((string_value(t, data.subrange(pos as int, p as int)), p + d)),
            None => if is_last {
                Some((string_value(t, data.subrange(pos as int, len as int)), len))
            } else {
                None
            },
        },
        FieldType::Latin1List => Some((FieldValue::Latin1List(list_items(data, d, pos)), len)),
        FieldType::StringList => Some((FieldValue::StrList(list_items(data, d, pos)), len)),
        FieldType::Int32Plus => Some((FieldValue::Int32Plus(strip_zeros(data.subrange(pos as int, len as int))), len)),
        FieldType::BinaryData => Some((FieldValue::BinaryData(data.subrange(pos as int, len as int)), len)),
        _ => if pos + w > len {
            None
        } else {
            match t {
                FieldType::TextEncoding => match encoding_of_byte(data[pos as int]) {
                    Some(e) => Some((FieldValue::TextEncoding(e), pos + 1)),
                    None => None,
                },
                FieldType::Language => Some((FieldValue::Language(data.subrange(pos as int, pos as int + 3)), pos + 3)),
                FieldType::FrameIdV2 => Some((FieldValue::FrameIdV2(data.subrange(pos as int, pos as int + 3)), pos + 3)),
                FieldType::FrameIdV34 => Some((FieldValue::FrameIdV34(data.subrange(pos as int, pos as int + 4)), pos + 4)),
                FieldType::Int8 => Some((FieldValue::Int8(data[pos as int]), pos + 1)),
                FieldType::Int16 => Some((FieldValue::Int16(data[pos as int], data[pos as int + 1]), pos + 2)),
                FieldType::Int24 => Some((FieldValue::Int24(data[pos as int], data[pos as int + 1], data[pos as int + 2]), pos + 3)),
                _ => Some((FieldValue::Int32(data[pos as int], data[pos as int + 1], data[pos as int + 2], data[pos as int + 3]), pos + 4)),
            }
        },
    }
}

/// Finds the first position from `pos` on, in steps of `d`, where `d` zero
/// bytes stand.
pub fn find_delim(data: &[u8], d: usize, pos: usize) -> (r: Option<usize>)
    requires
        pos <= data@.len(),
        d <= 2,
    ensures
        r matches Some(p) ==> scan(data@, d as nat, pos as nat) == Some(p as nat),
        r is None ==> scan(data@, d as nat, pos as nat) is None,
{
    if d == 0 {
        return None;
    }
    let n = data.len();
    let mut p: usize = pos;
    while p <= n && d <= n - p
        invariant
            n == data@.len(),
            1 <= d <= 2,
            scan(data@, d as nat, pos as nat) == scan(data@, d as nat, p as nat),
        decreases n + 1 - p,
    {
        let zero = data[p] == 0 && (d == 1 || data[p + 1] == 0);
        if zero {
            return Some(p);
        }
        p = p + d;
    }
    None
}

/// Splits the bytes from `pos` on at delimiters of `d` zero bytes.
fn split_list(data: &[u8], d: usize, pos: usize) -> (r: Vec<Vec<u8>>)
    requires
        pos <= data@.len(),
        1 <= d <= 2,
    ensures
        list_view(r@) == list_items(data@, d as nat, pos as nat),
{
    let n = data.len();
    if pos >= n {
        let r = vec![Vec::new()];
        assert(list_view(r@) =~= seq![Seq::<u8>::empty()]);
        return r;
    }
    let mut out: Vec<Vec<u8>> = Vec::new();
    let mut p: usize = pos;
    assert(list_view(out@) + split_from(data@, d as nat, pos as nat) =~= split_from(data@, d as nat, pos as nat));
    while p < n
        invariant
            n == data@.len(),
            1 <= d <= 2,
            p <= n,
            split_from(data@, d as nat, pos as nat) == list_view(out@) + split_from(data@, d as nat, p as nat),
        decreases n - p,
    {
        proof {
            lemma_scan_bounds(data@, d as nat, p as nat);
        }
        match find_delim(data, d, p) {
            Some(q) => {
                out.push(copy_range(data, p, q));
                p = q + d;
            },
            None => {
                out.push(copy_range(data, p, n));
                p = n;
            },
        }
        assert(list_view(out@) =~= list_view(out@.drop_last()).push(out@.last()@));
        assert(split_from(data@, d as nat, pos as nat) =~= list_view(out@) + split_from(data@, d as nat, p as nat));
    }
    assert(split_from(data@, d as nat, p as nat) =~= Seq::<Seq<u8>>::empty());
    assert(list_view(out@) + Seq::<Seq<u8>>::empty() =~= list_view(out@));
    out
}

/// The error for a field that the body does not hold.
fn malformed(description: &'static str) -> (r: Error)
    ensures
        r.kind is InvalidTag,
{
    Error::new(ErrorKind::InvalidTag, description)
}

impl Field {
    /// Reads a field of the given type at `pos` of a frame body. String
    /// fields are read in `encoding`. Returns the field and the position after
    /// it.
    pub fn parse(data: &[u8], pos: usize, ftype: FieldType, encoding: Encoding, is_last: bool) -> (r: Result<(Field, usize), Error>)
        requires
            pos <= data@.len(),
        ensures
            r is Ok <==> parse_field_spec(ftype, encoding, data@, pos as nat, is_last) is Some,
            r matches Ok((f, p)) ==> parse_field_spec(ftype, encoding, data@, pos as nat, is_last) == Some((f@, p as nat)),
            r matches Err(e) ==> (if pos + fixed_width(ftype) > data@.len() { e.kind is InternalIoError } else { e.kind is InvalidTag }),
    {
        let n = data.len();
        let d: usize = match ftype {
            FieldType::Latin1 | FieldType::Latin1Full | FieldType::Latin1List => 1,
            _ => crate::util::delim_len(encoding),
        };
        assert(d == type_delim(ftype, encoding));
        match ftype {
            FieldType::Latin1 | FieldType::Latin1Full | FieldType::String | FieldType::StringFull => {
                proof {
                    lemma_scan_bounds(data@, d as nat, pos as nat);
                }
                let (bytes, next) = match find_delim(data, d, pos) {
                    Some(q) => (copy_range(data, pos, q), q + d),
                    None => {
                        if !is_last {
                            return Err(malformed("no delimiter after a string field"));
                        }
                        (copy_range(data, pos, n), n)
                    },
                };
                let f = match ftype {
                    FieldType::Latin1 => Field::Latin1(bytes),
                    FieldType::Latin1Full => Field::Latin1Full(bytes),
                    FieldType::StringFull => Field::StringFull(bytes),
                    _ => Field::String(bytes),
                };
                Ok((f, next))
            },
            FieldType::Latin1List => Ok((Field::Latin1List(split_list(data, d, pos)), n)),
            FieldType::StringList => Ok((Field::StringList(split_list(data, d, pos)), n)),
            FieldType::Int32Plus => Ok((Field::Int32Plus(BigNum::new(copy_range(data, pos, n))), n)),
            FieldType::BinaryData => Ok((Field::BinaryData(copy_range(data, pos, n)), n)),
            _ => {
                let w: usize = match ftype {
                    FieldType::TextEncoding | FieldType::Int8 => 1,
                    FieldType::Int16 => 2,
                    FieldType::Language | FieldType::FrameIdV2 | FieldType::Int24 => 3,
                    _ => 4,
                };
                assert(w == fixed_width(ftype));
                if w > n - pos {
                    return Err(unexpected_end());
                }
                match ftype {
                    FieldType::TextEncoding => match Encoding::from_u8(data[pos]) {
                        Some(e) => Ok((Field::TextEncoding(e), pos + 1)),
                        None => Err(malformed("invalid text encoding byte")),
                    },
                    FieldType::Language => {
                        let a = [data[pos], data[pos + 1], data[pos + 2]];
                        assert(a@ =~= data@.subrange(pos as int, pos + 3));
                        Ok((Field::Language(a), pos + 3))
                    },
                    FieldType::FrameIdV2 => {
                        let a = [data[pos], data[pos + 1], data[pos + 2]];
                        assert(a@ =~= data@.subrange(pos as int, pos + 3));
                        Ok((Field::FrameIdV2(a), pos + 3))
                    },
                    FieldType::FrameIdV34 => {
                        let a = [data[pos], data[pos + 1], data[pos + 2], data[pos + 3]];
                        assert(a@ =~= data@.subrange(pos as int, pos + 4));
                        Ok((Field::FrameIdV34(a), pos + 4))
                    },
                    FieldType::Int8 => Ok((Field::Int8(data[pos]), pos + 1)),
                    FieldType::Int16 => Ok((Field::Int16(data[pos], data[pos + 1]), pos + 2)),
                    FieldType::Int24 => Ok((Field::Int24(data[pos], data[pos + 1], data[pos + 2]), pos + 3)),
                    _ => Ok((Field::Int32(data[pos], data[pos + 1], data[pos + 2], data[pos + 3]), pos + 4)),
                }
            },
        }
    }
}

} // verus!
