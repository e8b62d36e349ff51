//! Round-trip laws of the field codec: the bytes that a frame's fields are
//! written as read back as the same fields.
use vstd::prelude::*;
use crate::bignum::strip_zeros;
use crate::encoding::{Encoding, encoding_byte};
use crate::field::{FieldType, FieldValue, field_bytes, join, list_items, parse_field_spec, scan, split_from, string_value,
    type_delim, value_type, zero_unit, zeros};
use crate::frame::{decode_fields_spec, fields_bytes, fields_bytes_take, fields_encoding, parse_fields_from, FrameValue, FrameFlags,
    frame_read_as, frame_bytes, frame_fits, stored_body, stored_size, extras_spec, flags_word_v3, flags_word_v4, flags_of_word_v3,
    flags_of_word_v4, flags_at, lemma_frame_read_unique, size_at, extras_len, group_offset, header_len, id_len, raw_body, body_at, be24_spec, no_flags};
use crate::version::{Version, id_version, id_name, version_number};
use crate::id3v2::{Tag, frames_view, frames_bytes, frames_read_from, last_end, tag_bytes, tag_read_as, tag_region, tag_size,
    written_flags, written_region, tag_readable, version_of_major, tag_write_ok, has_ext_header, frames_start,
    written_ext, entries_view, kept_entries, ext_header_spec, lemma_ext_round_trip, lemma_ext_prefix};
use crate::util::{be_bytes_spec, be_u32_spec, synchsafe_spec, lemma_synchsafe_round_trip, lemma_be32,
    lemma_resynchronize_inverts};
use crate::frameinfo::format_spec;
use crate::version::Id;
use crate::text::{char_utf16, decode_spec, encode_spec, latin1_encode, le_units, be_units, units_le, units_be,
    surrogate_pair_value, until_nul, utf16_decode, utf16_of};
use vstd::utf8::*;

verus! {

/// No delimiter of `d` zero bytes stands at the positions `k`, `k + d`, ...
/// of `s`, and those positions step exactly to its end.
pub open spec fn clean_from(s: Seq<u8>, d: nat, k: nat) -> bool
    decreases s.len() - k,
{
    if d == 0 || k >= s.len() {
        k == s.len()
    } else {
        k + d <= s.len() && !zero_unit(s, k, d) && clean_from(s, d, k + d)
    }
}

/// A string payload that a delimiter of `d` zero bytes cannot cut short.
pub open spec fn clean(s: Seq<u8>, d: nat) -> bool {
    1 <= d <= 2 && clean_from(s, d, 0)
}

/// Whether a field can be written and read back: string payloads hold no
/// delimiter, fixed-width values have their width, and lists, counters and
/// opaque data (which run to the end of the frame) come last. A list holds at
/// least one item, and its last item is not empty unless it is the only one.
pub open spec fn field_valid(f: FieldValue, enc: Encoding, is_last: bool) -> bool {
    let d = type_delim(value_type(f), enc);
    match f {
        FieldValue::TextEncoding(_) => true,
        FieldValue::Latin1(s) => clean(s, d),
        FieldValue::Latin1Full(s) => clean(s, d),
        FieldValue::Str(s) => clean(s, d),
        FieldValue::StrFull(s) => clean(s, d),
        FieldValue::Latin1List(l) => list_valid(l, d) && is_last,
        FieldValue::StrList(l) => list_valid(l, d) && is_last,
        FieldValue::Language(a) => a.len() == 3,
        FieldValue::FrameIdV2(a) => a.len() == 3,
        FieldValue::FrameIdV34(a) => a.len() == 4,
        FieldValue::Int32Plus(n) => is_last && strip_zeros(n) == n,
        FieldValue::BinaryData(_) => is_last,
        _ => true,
    }
}

/// A list that reads back as itself.
pub open spec fn list_valid(l: Seq<Seq<u8>>, d: nat) -> bool {
    &&& l.len() >= 1
    &&& forall|i: int| 0 <= i < l.len() ==> clean(#[trigger] l[i], d)
    &&& (l.len() > 1 ==> l.last().len() > 0)
}

/// Whether a field sequence can be written and read back: each field is valid
/// in the sequence's encoding, and only the first field names an encoding.
pub open spec fn fields_valid(fs: Seq<FieldValue>) -> bool {
    forall|i: int| 0 <= i < fs.len() ==> {
        &&& field_valid(#[trigger] fs[i], fields_encoding(fs), i + 1 == fs.len())
        &&& (i > 0 ==> !(fs[i] is TextEncoding))
    }
}

proof fn lemma_scan_payload(data: Seq<u8>, d: nat, pos: nat, s: Seq<u8>, k: nat)
    requires
        1 <= d <= 2,
        pos + s.len() <= data.len(),
        data.subrange(pos as int, pos as int + s.len()) == s,
        clean_from(s, d, k),
        k <= s.len(),
    ensures
        zero_unit(data, pos + s.len(), d) ==> scan(data, d, pos + k) == Some((pos + s.len()) as nat),
        pos + s.len() == data.len() ==> scan(data, d, pos + k) is None,
    decreases s.len() - k,
{
    if k >= s.len() {
    } else {
        assert(data[pos as int + k] == s[k as int]);
        if d == 2 {
            assert(data[pos as int + k + 1] == s[k as int + 1]);
        }
        assert(!zero_unit(data, pos + k, d));
        lemma_scan_payload(data, d, pos, s, k + d);
        assert(pos + k + d == pos + (k + d));
    }
}

proof fn lemma_split_join(data: Seq<u8>, d: nat, pos: nat, l: Seq<Seq<u8>>)
    requires
        1 <= d <= 2,
        pos <= data.len(),
        data.subrange(pos as int, data.len() as int) == join(l, d),
        list_valid(l, d),
    ensures
        list_items(data, d, pos) == l,
    decreases l.len(),
{
    let x = l[0];
    assert(clean(l[0], d));
    if l.len() == 1 {
        assert(join(l, d) == x);
        if x.len() == 0 {
            assert(x =~= Seq::<u8>::empty());
            assert(l =~= seq![Seq::<u8>::empty()]);
        } else {
            assert(data.subrange(pos as int, pos as int + x.len()) =~= x);
            lemma_scan_payload(data, d, pos, x, 0);
            assert(l =~= seq![data.subrange(pos as int, data.len() as int)]);
        }
    } else {
        let rest = l.drop_first();
        assert(join(l, d) == x + zeros(d) + join(rest, d));
        let p = pos + x.len();
        assert(data.subrange(pos as int, data.len() as int).len() == join(l, d).len());
        assert(join(l, d).len() == x.len() + d + join(rest, d).len());
        assert(data.subrange(pos as int, p as int) =~= x) by {
            assert forall|j: int| 0 <= j < x.len() implies data[pos + j] == x[j] by {
                assert(data.subrange(pos as int, data.len() as int)[j] == join(l, d)[j]);
            }
        }
        assert(data[p as int] == 0) by {
            assert(data.subrange(pos as int, data.len() as int)[x.len() as int] == join(l, d)[x.len() as int]);
        }
        if d == 2 {
            assert(data[p as int + 1] == 0) by {
                assert(data.subrange(pos as int, data.len() as int)[x.len() as int + 1] == join(l, d)[x.len() as int + 1]);
            }
        }
        assert(zero_unit(data, p, d));
        lemma_scan_payload(data, d, pos, x, 0);
        assert(data.subrange((p + d) as int, data.len() as int) =~= join(rest, d)) by {
            assert forall|j: int| 0 <= j < join(rest, d).len() implies data[p + d + j] == join(rest, d)[j] by {
                assert(data.subrange(pos as int, data.len() as int)[x.len() + d + j] == join(l, d)[x.len() + d + j]);
            }
        }
        assert forall|i: int| 0 <= i < rest.len() implies clean(#[trigger] rest[i], d) by {
            assert(rest[i] == l[i + 1]);
        }
        assert(rest.len() > 1 ==> rest.last().len() > 0) by {
            if rest.len() > 1 {
                assert(rest.last() == l.last());
            }
        }
        if rest.len() == 1 {
            assert(rest[0] == l.last());
            assert(join(rest, d) == rest[0]);
        }
        assert(join(rest, d).len() > 0) by {
            if rest.len() > 1 {
                assert(join(rest, d) == rest[0] + zeros(d) + join(rest.drop_first(), d));
            }
        }
        lemma_split_join(data, d, (p + d) as nat, rest);
        assert(split_from(data, d, pos) == seq![data.subrange(pos as int, p as int)] + split_from(data, d, (p + d) as nat));
        assert(l =~= seq![x] + rest);
    }
}

/// A valid field written at `pos` reads back as itself, ending where its bytes end.
pub proof fn lemma_field_round_trip(f: FieldValue, enc: Encoding, data: Seq<u8>, pos: nat, is_last: bool)
    requires
        field_valid(f, enc, is_last),
        pos + field_bytes(f, enc, is_last).len() <= data.len(),
        data.subrange(pos as int, pos as int + field_bytes(f, enc, is_last).len()) == field_bytes(f, enc, is_last),
        is_last ==> pos + field_bytes(f, enc, is_last).len() == data.len(),
    ensures
        parse_field_spec(value_type(f), enc, data, pos, is_last) == Some((f, (pos + field_bytes(f, enc, is_last).len()) as nat)),
{
    let b = field_bytes(f, enc, is_last);
    let t = value_type(f);
    let d = type_delim(t, enc);
    assert forall|j: int| 0 <= j < b.len() implies data[pos + j] == b[j] by {
        assert(data.subrange(pos as int, pos as int + b.len())[j] == b[j]);
    }
    match f {
        FieldValue::Latin1(s) | FieldValue::Latin1Full(s) | FieldValue::Str(s) | FieldValue::StrFull(s) => {
            assert(data.subrange(pos as int, pos as int + s.len()) =~= s);
            if is_last {
                assert(b == s);
                lemma_scan_payload(data, d, pos, s, 0);
            } else {
                assert(b == s + zeros(d));
                assert(data[pos as int + s.len()] == b[s.len() as int]);
                if d == 2 {
                    assert(data[pos as int + s.len() + 1] == b[s.len() as int + 1]);
                }
                assert(zero_unit(data, pos + s.len(), d));
                lemma_scan_payload(data, d, pos, s, 0);
            }
            assert(string_value(t, s) == f);
        },
        FieldValue::Latin1List(l) | FieldValue::StrList(l) => {
            assert(b == join(l, d));
            assert(data.subrange(pos as int, data.len() as int) =~= b);
            lemma_split_join(data, d, pos, l);
        },
        FieldValue::Int32Plus(n) => {
            assert(data.subrange(pos as int, data.len() as int) =~= n);
        },
        FieldValue::BinaryData(s) => {
            assert(data.subrange(pos as int, data.len() as int) =~= s);
        },
        FieldValue::TextEncoding(e) => {
            assert(data[pos as int] == b[0]);
            assert(b[0] == encoding_byte(e));
        },
        FieldValue::Language(a) => {
            assert(data.subrange(pos as int, pos as int + 3) =~= a);
        },
        FieldValue::FrameIdV2(a) => {
            assert(data.subrange(pos as int, pos as int + 3) =~= a);
        },
        FieldValue::FrameIdV34(a) => {
            assert(data.subrange(pos as int, pos as int + 4) =~= a);
        },
        FieldValue::Int8(x) => {
            assert(data[pos as int] == b[0]);
        },
        FieldValue::Int16(x, y) => {
            assert(data[pos as int] == b[0] && data[pos as int + 1] == b[1]);
        },
        FieldValue::Int24(x, y, z) => {
            assert(data[pos as int] == b[0] && data[pos as int + 1] == b[1] && data[pos as int + 2] == b[2]);
        },
        FieldValue::Int32(x, y, z, w) => {
            assert(data[pos as int] == b[0] && data[pos as int + 1] == b[1] && data[pos as int + 2] == b[2] && data[pos as int + 3] == b[3]);
        },
    }
}

proof fn lemma_take_prefix(fs: Seq<FieldValue>, enc: Encoding, i: nat, n: nat)
    requires
        i <= n <= fs.len(),
    ensures
        fields_bytes_take(fs, enc, i).len() <= fields_bytes_take(fs, enc, n).len(),
        fields_bytes_take(fs, enc, n).subrange(0, fields_bytes_take(fs, enc, i).len() as int) == fields_bytes_take(fs, enc, i),
    decreases n,
{
    if i == n {
        assert(fields_bytes_take(fs, enc, n).subrange(0, fields_bytes_take(fs, enc, n).len() as int) =~= fields_bytes_take(fs, enc, n));
    } else {
        lemma_take_prefix(fs, enc, i, (n - 1) as nat);
        let a = fields_bytes_take(fs, enc, (n - 1) as nat);
        assert(fields_bytes_take(fs, enc, n) == a + field_bytes(fs[n - 1], enc, n == fs.len()));
        assert(fields_bytes_take(fs, enc, n).subrange(0, fields_bytes_take(fs, enc, i).len() as int)
            =~= a.subrange(0, fields_bytes_take(fs, enc, i).len() as int));
    }
}

#[verifier::rlimit(80)]
proof fn lemma_parse_from(kinds: Seq<FieldType>, fs: Seq<FieldValue>, i: nat, enc: Encoding)
    requires
        fs.len() == kinds.len(),
        forall|j: int| 0 <= j < fs.len() ==> value_type(#[trigger] fs[j]) == kinds[j],
        fields_valid(fs),
        i <= fs.len(),
        enc == fields_encoding(fs) || (i == 0 && fs.len() > 0 && fs[0] is TextEncoding),
    ensures
        parse_fields_from(kinds, i, enc, fields_bytes(fs), fields_bytes_take(fs, fields_encoding(fs), i).len())
            == Some(fs.subrange(i as int, fs.len() as int)),
    decreases fs.len() - i,
{
    let e = fields_encoding(fs);
    let data = fields_bytes(fs);
    let n = fs.len();
    let pos = fields_bytes_take(fs, e, i).len();
    if i >= n {
        assert(fs.subrange(i as int, n as int) =~= Seq::<FieldValue>::empty());
    } else {
        let f = fs[i as int];
        let is_last = i + 1 == n;
        assert(field_valid(f, e, is_last));
        lemma_take_prefix(fs, e, (i + 1) as nat, n);
        let next = fields_bytes_take(fs, e, (i + 1) as nat);
        assert(next == fields_bytes_take(fs, e, i) + field_bytes(f, e, is_last));
        let fb = field_bytes(f, e, is_last);
        assert(data.subrange(pos as int, pos as int + fb.len()) =~= fb) by {
            assert(data.subrange(0, next.len() as int) == next);
            assert forall|j: int| 0 <= j < fb.len() implies data.subrange(pos as int, pos as int + fb.len())[j] == fb[j] by {
                assert(data.subrange(0, next.len() as int)[pos + j] == next[pos + j]);
            }
        }
        if is_last {
            assert(next == data);
        }
        let pe = if f is TextEncoding { enc } else { e };
        assert(field_valid(f, pe, is_last) && field_bytes(f, pe, is_last) == fb) by {
            if !(f is TextEncoding) && enc != e {
                assert(false);
            }
        }
        lemma_field_round_trip(f, enc, data, pos, is_last);
        assert(parse_field_spec(kinds[i as int], enc, data, pos, is_last) == Some((f, next.len())));
        let enc2 = match f {
            FieldValue::TextEncoding(x) => x,
            _ => enc,
        };
        assert(enc2 == e) by {
            if f is TextEncoding {
                assert(i == 0);
            }
        }
        lemma_parse_from(kinds, fs, (i + 1) as nat, enc2);
        assert(fs.subrange(i as int, n as int) =~= seq![f] + fs.subrange(i as int + 1, n as int));
    }
}

/// The bytes that a frame's fields are written as read back as the same
/// fields, for every field sequence that follows the layout of the frame's
/// identifier and can be written and read back.
pub proof fn lemma_fields_round_trip(id: Id, fs: Seq<FieldValue>)
    requires
        fs.len() == format_spec(id).len(),
        forall|j: int| 0 <= j < fs.len() ==> value_type(#[trigger] fs[j]) == format_spec(id)[j],
        fields_valid(fs),
    ensures
        decode_fields_spec(id, fields_bytes(fs)) == Some(fs),
{
    let e = fields_encoding(fs);
    if !(fs.len() > 0 && fs[0] is TextEncoding) {
        assert(e == Encoding::Latin1);
    }
    lemma_parse_from(format_spec(id), fs, 0, Encoding::Latin1);
    assert(fields_bytes_take(fs, e, 0).len() == 0);
    assert(fs.subrange(0, fs.len() as int) =~= fs);
}

/// No character of the text is NUL.
pub open spec fn no_nul(s: Seq<char>) -> bool {
    forall|i: int| 0 <= i < s.len() ==> (#[trigger] s[i] as u32) != 0
}

/// Every character of the text is in Latin-1.
pub open spec fn latin1_only(s: Seq<char>) -> bool {
    forall|i: int| 0 <= i < s.len() ==> (#[trigger] s[i] as u32) <= 0xFF
}

proof fn lemma_until_nul_whole(b: Seq<u8>)
    requires
        forall|i: int| 0 <= i < b.len() ==> #[trigger] b[i] != 0,
    ensures
        until_nul(b) == b,
    decreases b.len(),
{
    if b.len() > 0 {
        assert(b[0] != 0);
        assert forall|i: int| 0 <= i < b.drop_first().len() implies #[trigger] b.drop_first()[i] != 0 by {
            assert(b.drop_first()[i] == b[i + 1]);
        }
        lemma_until_nul_whole(b.drop_first());
        assert(b =~= seq![b[0]] + b.drop_first());
    }
}

proof fn lemma_utf8_no_zero(s: Seq<char>)
    requires
        no_nul(s),
    ensures
        forall|i: int| 0 <= i < encode_utf8(s).len() ==> #[trigger] encode_utf8(s)[i] != 0,
    decreases s.len(),
{
    if s.len() > 0 {
        let c = s[0];
        let v = c as u32;
        char_is_scalar(c);
        assert(v != 0);
        let e = encode_scalar(v);
        assert forall|i: int| 0 <= i < e.len() implies #[trigger] e[i] != 0 by {
            if has_width_1_encoding(v) {
                assert((v & 0x7F) as u8 != 0) by (bit_vector)
                    requires
                        v != 0,
                        v <= 0x7F;
            } else {
                let a: u8 = ((v >> 6) & 0x1F) as u8;
                let b2: u8 = ((v >> 12) & 0x0F) as u8;
                let b3: u8 = ((v >> 18) & 0x7) as u8;
                let c1: u8 = (v & 0x3F) as u8;
                let c2: u8 = ((v >> 6) & 0x3F) as u8;
                let c3: u8 = ((v >> 12) & 0x3F) as u8;
                assert(0xC0u8 | a != 0 && 0xE0u8 | b2 != 0 && 0xF0u8 | b3 != 0 && 0x80u8 | c1 != 0 && 0x80u8 | c2 != 0 && 0x80u8 | c3 != 0) by (bit_vector);
            }
        }
        lemma_utf8_no_zero(s.drop_first());
        assert forall|i: int| 0 <= i < s.drop_first().len() implies (#[trigger] s.drop_first()[i] as u32) != 0 by {
            assert(s.drop_first()[i] == s[i + 1]);
        }
        let r = encode_utf8(s.drop_first());
        assert(encode_utf8(s) == e + r);
        assert forall|i: int| 0 <= i < encode_utf8(s).len() implies #[trigger] encode_utf8(s)[i] != 0 by {
            if i < e.len() {
                assert(encode_utf8(s)[i] == e[i]);
            } else {
                assert(encode_utf8(s)[i] == r[i - e.len()]);
            }
        }
    }
}

proof fn lemma_utf16_front(s: Seq<char>)
    requires
        s.len() > 0,
    ensures
        utf16_of(s) == char_utf16(s[0]) + utf16_of(s.drop_first()),
    decreases s.len(),
{
    if s.len() == 1 {
        assert(s.drop_last() =~= Seq::<char>::empty());
        assert(s.drop_first() =~= Seq::<char>::empty());
        assert(utf16_of(s) =~= char_utf16(s[0]) + utf16_of(s.drop_first()));
    } else {
        lemma_utf16_front(s.drop_last());
        assert(s.drop_last().drop_first() =~= s.drop_first().drop_last());
        assert(s.drop_first().last() == s.last());
        assert(s.drop_last()[0] == s[0]);
        assert(utf16_of(s) =~= char_utf16(s[0]) + utf16_of(s.drop_first()));
    }
}

proof fn lemma_decode_char(c: char, rest: Seq<u16>)
    ensures
        utf16_decode(char_utf16(c) + rest) == (match utf16_decode(rest) {
            Some(t) => Some(seq![c] + t),
            None => None::<Seq<char>>,
        }),
{
    let v = c as u32;
    char_is_scalar(c);
    let u = char_utf16(c) + rest;
    if v < 0x10000 {
        assert(u[0] == v as u16);
        assert(u.drop_first() =~= rest);
        assert((v as u16) < 0xD800 || (v as u16) > 0xDFFF);
        assert(((v as u16) as u32) == v);
        char_u32_cast(c, v);
    } else {
        let w: u32 = (v - 0x10000) as u32;
        let hi: u16 = (0xD800 + (w >> 10)) as u16;
        let lo: u16 = (0xDC00 + (w & 0x3FF)) as u16;
        assert(0xD800 <= hi <= 0xDBFF && 0xDC00 <= lo <= 0xDFFF && surrogate_pair_value(hi, lo) == v) by (bit_vector)
            requires
                0x10000 <= v <= 0x10FFFF,
                w == (v - 0x10000) as u32,
                hi == (0xD800 + (w >> 10)) as u16,
                lo == (0xDC00 + (w & 0x3FF)) as u16,
                surrogate_pair_value(hi, lo) == (0x10000 + ((((hi - 0xD800) as u32) << 10) | ((lo - 0xDC00) as u32))) as u32;
        assert(u[0] == hi && u[1] == lo);
        assert(u.subrange(2, u.len() as int) =~= rest);
        char_u32_cast(c, v);
    }
}

proof fn lemma_utf16_decode_of(s: Seq<char>)
    ensures
        utf16_decode(utf16_of(s)) == Some(s),
    decreases s.len(),
{
    if s.len() == 0 {
        assert(utf16_of(s) =~= Seq::<u16>::empty());
    } else {
        lemma_utf16_front(s);
        lemma_utf16_decode_of(s.drop_first());
        lemma_decode_char(s[0], utf16_of(s.drop_first()));
        assert(s =~= seq![s[0]] + s.drop_first());
    }
}

proof fn lemma_le_units(u: Seq<u16>)
    ensures
        le_units(units_le(u)) == u,
{
    assert forall|i: int| 0 <= i < u.len() implies #[trigger] le_units(units_le(u))[i] == u[i] by {
        let x = u[i];
        assert(units_le(u)[2 * i] == (x & 0xFF) as u8);
        assert(units_le(u)[2 * i + 1] == (x >> 8) as u8);
        assert((((x & 0xFF) as u8) as u16 | (((x >> 8) as u8) as u16) << 8) as u16 == x) by (bit_vector);
    }
    assert(le_units(units_le(u)) =~= u);
}

proof fn lemma_be_units(u: Seq<u16>)
    ensures
        be_units(units_be(u)) == u,
{
    assert forall|i: int| 0 <= i < u.len() implies #[trigger] be_units(units_be(u))[i] == u[i] by {
        let x = u[i];
        assert(units_be(u)[2 * i] == (x >> 8) as u8);
        assert(units_be(u)[2 * i + 1] == (x & 0xFF) as u8);
        assert(((((x >> 8) as u8) as u16) << 8 | ((x & 0xFF) as u8) as u16) as u16 == x) by (bit_vector);
    }
    assert(be_units(units_be(u)) =~= u);
}

/// Text encoded in an encoding decodes back to itself: always in the UTF-16
/// forms; in UTF-8 and Latin-1 for text without NUL characters, since that
/// text ends at the first zero byte; and in Latin-1 only for text whose
/// characters Latin-1 holds.
pub proof fn lemma_string_round_trip(s: Seq<char>, e: Encoding)
    requires
        (e == Encoding::Latin1 || e == Encoding::UTF8) ==> no_nul(s),
        e == Encoding::Latin1 ==> latin1_only(s),
    ensures
        decode_spec(e, encode_spec(s, e)) == Some(s),
{
    match e {
        Encoding::Latin1 => {
            let b = latin1_encode(s);
            assert forall|i: int| 0 <= i < b.len() implies #[trigger] b[i] != 0 && (b[i] as u32) as char == s[i] by {
                let v = s[i] as u32;
                assert(v <= 0xFF && v != 0);
                assert(b[i] == (v as u8));
                assert(((v as u8) as u32) == v);
                char_u32_cast(s[i], v);
            }
            lemma_until_nul_whole(b);
            assert(Seq::new(until_nul(b).len(), |i: int| (until_nul(b)[i] as u32) as char) =~= s);
        },
        Encoding::UTF8 => {
            lemma_utf8_no_zero(s);
            lemma_until_nul_whole(encode_utf8(s));
            encode_utf8_valid_utf8(s);
            encode_utf8_decode_utf8(s);
        },
        Encoding::UTF16 => {
            let u = utf16_of(s);
            let b = seq![0xFFu8, 0xFEu8] + units_le(u);
            assert(b.subrange(2, b.len() as int) =~= units_le(u));
            lemma_le_units(u);
            lemma_utf16_decode_of(s);
        },
        Encoding::UTF16BE => {
            let u = utf16_of(s);
            lemma_be_units(u);
            lemma_utf16_decode_of(s);
        },
    }
}

/// Whether a frame can be written and read back unchanged: its fields follow
/// its identifier's layout and can be read back, its identifier does not start
/// with a zero byte, it is neither compressed nor encrypted, it carries only
/// the flags its version writes, and its sizes fit its header.
pub open spec fn frame_writable(f: FrameValue) -> bool {
    let v = id_version(f.id);
    &&& f.fields.len() == format_spec(f.id).len()
    &&& (forall|j: int| 0 <= j < f.fields.len() ==> value_type(#[trigger] f.fields[j]) == format_spec(f.id)[j])
    &&& fields_valid(f.fields)
    &&& id_name(f.id)[0] != 0
    &&& !f.flags.compression
    &&& !f.flags.encryption
    &&& f.encryption_method == 0
    &&& (!f.flags.grouping_identity ==> f.group_symbol == 0)
    &&& (v == Version::V2 ==> f.flags == no_flags() && f.group_symbol == 0)
    &&& (v == Version::V3 ==> !f.flags.unsynchronization && !f.flags.data_length_indicator)
    &&& frame_fits(f)
}

proof fn lemma_flags_v3(f: FrameFlags)
    requires
        !f.unsynchronization && !f.data_length_indicator,
    ensures
        flags_of_word_v3(((((flags_word_v3(f) >> 8) as u8) as u16) << 8 | ((flags_word_v3(f) & 0xFF) as u8) as u16) as u16) == f,
{
    let w = flags_word_v3(f);
    let w2 = ((((w >> 8) as u8) as u16) << 8 | ((w & 0xFF) as u8) as u16) as u16;
    assert(w2 == w) by (bit_vector)
        requires
            w2 == ((((w >> 8) as u8) as u16) << 8 | ((w & 0xFF) as u8) as u16) as u16;
    let a = f.tag_alter_preservation;
    let b = f.file_alter_preservation;
    let c = f.read_only;
    let d = f.compression;
    let e = f.encryption;
    let g = f.grouping_identity;
    let x: u16 = if a { 0x8000 } else { 0 };
    let y: u16 = if b { 0x4000 } else { 0 };
    let z: u16 = if c { 0x2000 } else { 0 };
    let p: u16 = if d { 0x0080 } else { 0 };
    let q: u16 = if e { 0x0040 } else { 0 };
    let r: u16 = if g { 0x0020 } else { 0 };
    assert(w == (x | y | z | p | q | r) as u16);
    assert(((x | y | z | p | q | r) & 0x8000 != 0) == (x != 0)
        && ((x | y | z | p | q | r) & 0x4000 != 0) == (y != 0)
        && ((x | y | z | p | q | r) & 0x2000 != 0) == (z != 0)
        && ((x | y | z | p | q | r) & 0x0080 != 0) == (p != 0)
        && ((x | y | z | p | q | r) & 0x0040 != 0) == (q != 0)
        && ((x | y | z | p | q | r) & 0x0020 != 0) == (r != 0)) by (bit_vector)
        requires
            x == 0 || x == 0x8000,
            y == 0 || y == 0x4000,
            z == 0 || z == 0x2000,
            p == 0 || p == 0x0080,
            q == 0 || q == 0x0040,
            r == 0 || r == 0x0020;
}

proof fn lemma_flags_v4(f: FrameFlags)
    ensures
        flags_of_word_v4(((((flags_word_v4(f) >> 8) as u8) as u16) << 8 | ((flags_word_v4(f) & 0xFF) as u8) as u16) as u16) == f,
{
    let w = flags_word_v4(f);
    let w2 = ((((w >> 8) as u8) as u16) << 8 | ((w & 0xFF) as u8) as u16) as u16;
    assert(w2 == w) by (bit_vector)
        requires
            w2 == ((((w >> 8) as u8) as u16) << 8 | ((w & 0xFF) as u8) as u16) as u16;
    let x: u16 = if f.tag_alter_preservation { 0x4000 } else { 0 };
    let y: u16 = if f.file_alter_preservation { 0x2000 } else { 0 };
    let z: u16 = if f.read_only { 0x1000 } else { 0 };
    let g: u16 = if f.grouping_identity { 0x0040 } else { 0 };
    let p: u16 = if f.compression { 0x0008 } else { 0 };
    let q: u16 = if f.encryption { 0x0004 } else { 0 };
    let u: u16 = if f.unsynchronization { 0x0002 } else { 0 };
    let l: u16 = if f.data_length_indicator { 0x0001 } else { 0 };
    assert(w == (x | y | z | g | p | q | u | l) as u16);
    assert(((x | y | z | g | p | q | u | l) & 0x4000 != 0) == (x != 0)
        && ((x | y | z | g | p | q | u | l) & 0x2000 != 0) == (y != 0)
        && ((x | y | z | g | p | q | u | l) & 0x1000 != 0) == (z != 0)
        && ((x | y | z | g | p | q | u | l) & 0x0040 != 0) == (g != 0)
        && ((x | y | z | g | p | q | u | l) & 0x0008 != 0) == (p != 0)
        && ((x | y | z | g | p | q | u | l) & 0x0004 != 0) == (q != 0)
        && ((x | y | z | g | p | q | u | l) & 0x0002 != 0) == (u != 0)
        && ((x | y | z | g | p | q | u | l) & 0x0001 != 0) == (l != 0)) by (bit_vector)
        requires
            x == 0 || x == 0x4000,
            y == 0 || y == 0x2000,
            z == 0 || z == 0x1000,
            g == 0 || g == 0x0040,
            p == 0 || p == 0x0008,
            q == 0 || q == 0x0004,
            u == 0 || u == 0x0002,
            l == 0 || l == 0x0001;
}


proof fn lemma_be24(n: nat)
    requires
        n < 0x100_0000,
    ensures
        (be24_spec(n)[0] as nat) * 65536 + (be24_spec(n)[1] as nat) * 256 + be24_spec(n)[2] as nat == n,
{
    let a = (n / 65536) % 256;
    let b = (n / 256) % 256;
    let c = n % 256;
    assert(a * 65536 + b * 256 + c == n) by (nonlinear_arith)
        requires
            n < 0x100_0000,
            a == (n / 65536) % 256,
            b == (n / 256) % 256,
            c == n % 256;
}

/// A writable frame, written at `pos`, reads back as itself and ends where
/// its bytes end.
#[verifier::rlimit(100)]
pub proof fn lemma_frame_round_trip(f: FrameValue, data: Seq<u8>, pos: int)
    requires
        frame_writable(f),
        0 <= pos,
        pos + frame_bytes(f).len() <= data.len(),
        data.subrange(pos, pos + frame_bytes(f).len()) == frame_bytes(f),
    ensures
        frame_read_as(data, pos, id_version(f.id), (pos + frame_bytes(f).len()) as nat, f),
{
    reveal(frame_read_as);
    let v = id_version(f.id);
    let b = frame_bytes(f);
    let content = fields_bytes(f.fields);
    let ext = extras_spec(f, v, content.len());
    let body = stored_body(f);
    let size = stored_size(f);
    let name = id_name(f.id);
    assert forall|j: int| 0 <= j < b.len() implies data[pos + j] == #[trigger] b[j] by {
        assert(data.subrange(pos, pos + b.len())[j] == b[j]);
    }
    assert(name.len() == id_len(v));
    lemma_fields_round_trip(f.id, f.fields);
    let hl = header_len(v) as int;
    let el = ext.len() as int;
    if v == Version::V2 {
        assert(b == name + be24_spec(size) + body);
        assert(ext.len() == 0);
        lemma_be24(size);
        assert(data[pos + 3] == be24_spec(size)[0] && data[pos + 4] == be24_spec(size)[1] && data[pos + 5] == be24_spec(size)[2]) by {
            assert(b[3] == be24_spec(size)[0] && b[4] == be24_spec(size)[1] && b[5] == be24_spec(size)[2]);
        }
        assert(size_at(data, pos, v) == size);
    } else {
        let w = if v == Version::V3 { flags_word_v3(f.flags) } else { flags_word_v4(f.flags) };
        let sz = if v == Version::V3 { size as u32 } else { synchsafe_spec(size as u32) };
        let fb = seq![(w >> 8) as u8, (w & 0xFF) as u8];
        assert(b == name + be_bytes_spec(sz) + fb + ext + body);
        let bb = be_bytes_spec(sz);
        assert(data[pos + 4] == bb[0] && data[pos + 5] == bb[1] && data[pos + 6] == bb[2] && data[pos + 7] == bb[3]) by {
            assert(b[4] == bb[0] && b[5] == bb[1] && b[6] == bb[2] && b[7] == bb[3]);
        }
        assert(data[pos + 8] == fb[0] && data[pos + 9] == fb[1]) by {
            assert(b[8] == fb[0] && b[9] == fb[1]);
        }
        lemma_be32(sz);
        if v == Version::V3 {
            lemma_flags_v3(f.flags);
            assert(size_at(data, pos, v) == size);
            assert(flags_at(data, pos, v) == f.flags);
        } else {
            lemma_flags_v4(f.flags);
            lemma_synchsafe_round_trip(size as u32);
            assert(size_at(data, pos, v) == size);
            assert(flags_at(data, pos, v) == f.flags);
        }
        assert(extras_len(f.flags, v) == ext.len());
        if f.flags.grouping_identity {
            assert(ext[0] == f.group_symbol);
            assert(b[hl + group_offset(f.flags, v)] == ext[0]);
        }
    }
    assert(data.subrange(pos, pos + id_len(v)) =~= name) by {
        assert forall|j: int| 0 <= j < name.len() implies data.subrange(pos, pos + id_len(v))[j] == name[j] by {
            assert(b[j] == name[j]);
        }
    }
    assert(data[pos] == name[0]) by {
        assert(b[0] == name[0]);
    }
    assert(b.len() == hl + size);
    assert(raw_body(data, pos, v) =~= body) by {
        assert forall|j: int| 0 <= j < body.len() implies raw_body(data, pos, v)[j] == body[j] by {
            assert(b[hl + el + j] == body[j]);
        }
    }
    if f.flags.unsynchronization && v == Version::V4 {
        lemma_resynchronize_inverts(content);
    }
    assert(body_at(data, pos, v) == Some(content));
}

proof fn lemma_frames_prefix_equal(region: Seq<u8>, v: Version, start: nat, a: Seq<FrameValue>, ea: Seq<nat>,
    b: Seq<FrameValue>, eb: Seq<nat>, k: nat)
    requires
        frames_read_from(region, v, start, a, ea),
        frames_read_from(region, v, start, b, eb),
        k <= a.len(),
        k <= b.len(),
    ensures
        forall|j: int| 0 <= j < k ==> a[j] == b[j] && ea[j] == eb[j],
    decreases k,
{
    if k > 0 {
        lemma_frames_prefix_equal(region, v, start, a, ea, b, eb, (k - 1) as nat);
        let j = k - 1;
        let p = if j == 0 { start as int } else { ea[j - 1] as int };
        assert(frame_read_as(region, p, v, ea[j], a[j]));
        assert(frame_read_as(region, if j == 0 { start as int } else { eb[j - 1] as int }, v, eb[j], b[j]));
        lemma_frame_read_unique(region, p, v, ea[j], a[j], eb[j], b[j]);
    }
}

proof fn lemma_frames_unique(region: Seq<u8>, v: Version, start: nat, a: Seq<FrameValue>, ea: Seq<nat>,
    b: Seq<FrameValue>, eb: Seq<nat>)
    requires
        frames_read_from(region, v, start, a, ea),
        frames_read_from(region, v, start, b, eb),
        last_end(start, ea) <= region.len(),
        last_end(start, ea) < region.len() ==> region[last_end(start, ea) as int] == 0,
        last_end(start, eb) <= region.len(),
        last_end(start, eb) < region.len() ==> region[last_end(start, eb) as int] == 0,
    ensures
        a == b,
        last_end(start, ea) == last_end(start, eb),
{
    reveal(frame_read_as);
    let m = if a.len() <= b.len() { a.len() } else { b.len() };
    lemma_frames_prefix_equal(region, v, start, a, ea, b, eb, m);
    if a.len() < b.len() {
        let j = a.len() as int;
        assert(frame_read_as(region, if j == 0 { start as int } else { eb[j - 1] as int }, v, eb[j], b[j]));
        if j > 0 {
            assert(ea[j - 1] == eb[j - 1]);
        }
        assert(false);
    } else if b.len() < a.len() {
        let j = b.len() as int;
        assert(frame_read_as(region, if j == 0 { start as int } else { ea[j - 1] as int }, v, ea[j], a[j]));
        if j > 0 {
            assert(ea[j - 1] == eb[j - 1]);
        }
        assert(false);
    }
    assert(a =~= b);
    if a.len() > 0 {
        assert(ea.last() == eb.last());
    }
}

proof fn lemma_frames_bytes_prefix(fs: Seq<FrameValue>, i: nat, n: nat)
    requires
        i <= n <= fs.len(),
    ensures
        frames_bytes(fs.take(i as int)).len() <= frames_bytes(fs.take(n as int)).len(),
        frames_bytes(fs.take(n as int)).subrange(0, frames_bytes(fs.take(i as int)).len() as int) == frames_bytes(fs.take(i as int)),
    decreases n,
{
    if i == n {
        assert(frames_bytes(fs.take(n as int)).subrange(0, frames_bytes(fs.take(n as int)).len() as int) =~= frames_bytes(fs.take(n as int)));
    } else {
        lemma_frames_bytes_prefix(fs, i, (n - 1) as nat);
        assert(fs.take(n as int).drop_last() =~= fs.take(n - 1));
        let a = frames_bytes(fs.take(n - 1));
        assert(frames_bytes(fs.take(n as int)) == a + frame_bytes(fs[n - 1]));
        assert(frames_bytes(fs.take(n as int)).subrange(0, frames_bytes(fs.take(i as int)).len() as int)
            =~= a.subrange(0, frames_bytes(fs.take(i as int)).len() as int));
    }
}

/// Whether a tag can be written without unsynchronization and read back
/// unchanged but for its padding: every frame of its version and writable, an
/// extended header (ID3v2.3/4 only) whose entries are those that get written,
/// and a frame region that the header's size holds.
pub open spec fn tag_writable(t: Tag, padding: nat) -> bool {
    &&& t.wf()
    &&& (t.extended_header matches Some(h) ==> t.version != Version::V2
        && kept_entries(entries_view(h.flag_data@), t.version) == entries_view(h.flag_data@))
    &&& (forall|i: int| 0 <= i < t.frames@.len() ==> frame_writable(#[trigger] t.frames@[i]@))
    &&& written_region(t, padding).len() < 0x1000_0000
}

/// A writable tag, written without unsynchronization, is written without
/// error and reads without error: its extended header and then its frames.
#[verifier::rlimit(100)]
pub proof fn lemma_tag_written(t: Tag, padding: nat)
    requires
        tag_writable(t, padding),
    ensures
        tag_write_ok(t, false, padding),
        tag_readable(tag_bytes(t, false, padding)),
        tag_region(tag_bytes(t, false, padding)) == written_region(t, padding),
        version_of_major(tag_bytes(t, false, padding)[3]) == Some(t.version),
        has_ext_header(tag_bytes(t, false, padding)) <==> t.extended_header is Some,
        frames_start(tag_bytes(t, false, padding)) == written_ext(t).len(),
        t.extended_header matches Some(h) ==> ext_header_spec(written_region(t, padding), t.version)
            == Some((entries_view(h.flag_data@), written_ext(t).len())),
        exists|ends: Seq<nat>| {
            &&& frames_read_from(written_region(t, padding), t.version, written_ext(t).len(), frames_view(t.frames@), ends)
            &&& last_end(written_ext(t).len(), ends) <= written_region(t, padding).len()
            &&& last_end(written_ext(t).len(), ends) + padding == written_region(t, padding).len()
            &&& (last_end(written_ext(t).len(), ends) < written_region(t, padding).len()
                ==> written_region(t, padding)[last_end(written_ext(t).len(), ends) as int] == 0)
        },
{
    let data = tag_bytes(t, false, padding);
    let fs = frames_view(t.frames@);
    let v = t.version;
    let region = written_region(t, padding);
    let ext = written_ext(t);
    let e = ext.len();
    let fb_all = frames_bytes(fs);
    let n = fs.len();
    let wfl = written_flags(t, false);
    let sz = synchsafe_spec(region.len() as u32);
    assert(data == seq![0x49u8, 0x44, 0x33, version_number(v), 0, wfl] + be_bytes_spec(sz) + region);
    assert(data[3] == version_number(v) && data[5] == wfl);
    let exp = if v != Version::V2 { t.flags.byte & 0x20 } else { 0u8 };
    let xb = t.flags.byte;
    if v != Version::V2 && t.extended_header is Some {
        assert(wfl == (0u8 | 0x40u8 | exp) as u8);
        assert(((0u8 | 0x40u8 | (xb & 0x20)) as u8) & 0x40 != 0 && ((0u8 | 0x40u8 | (xb & 0x20)) as u8) & 0x80 == 0) by (bit_vector);
    } else {
        assert(wfl == (0u8 | 0u8 | exp) as u8);
        assert(((0u8 | 0u8 | (xb & 0x20)) as u8) & 0xC0 == 0 && ((0u8 | 0u8 | 0u8) as u8) & 0xC0 == 0) by (bit_vector);
        assert(wfl & 0x80 == 0 && wfl & 0x40 == 0) by (bit_vector)
            requires
                wfl & 0xC0 == 0;
    }
    let bb = be_bytes_spec(sz);
    assert(data[6] == bb[0] && data[7] == bb[1] && data[8] == bb[2] && data[9] == bb[3]);
    lemma_be32(sz);
    lemma_synchsafe_round_trip(region.len() as u32);
    assert(tag_size(data) == region.len());
    assert(tag_region(data) =~= region);
    assert(version_of_major(data[3]) == Some(v));
    let rest = fb_all + Seq::new(padding, |i: int| 0u8);
    assert(region =~= ext + rest);
    if t.extended_header is Some {
        let h = t.extended_header->0;
        lemma_ext_round_trip(entries_view(h.flag_data@), v);
        lemma_ext_prefix(ext, rest, v);
        assert(ext_header_spec(region, v) == Some((entries_view(h.flag_data@), e)));
    } else {
        assert(ext =~= Seq::<u8>::empty());
    }
    assert(has_ext_header(data) <==> t.extended_header is Some);
    assert(frames_start(data) == e);
    assert forall|k: int| 0 <= k < fb_all.len() implies region[e + k] == #[trigger] fb_all[k] by {
        assert(region[e + k] == rest[k]);
    }
    let ends = Seq::new(n, |i: int| e + frames_bytes(fs.take(i + 1)).len());
    assert(fs.take(n as int) =~= fs);
    assert forall|i: int| 0 <= i < n implies frame_read_as(region, if i == 0 { e as int } else { ends[i - 1] as int }, v, ends[i], #[trigger] fs[i]) by {
        let st0 = frames_bytes(fs.take(i)).len() as int;
        let st = e + st0;
        if i == 0 {
            assert(fs.take(0) =~= Seq::<FrameValue>::empty());
        }
        assert((if i == 0 { e as int } else { ends[i - 1] as int }) == st);
        lemma_frames_bytes_prefix(fs, (i + 1) as nat, n);
        assert(fs.take(i + 1).drop_last() =~= fs.take(i));
        let fb = frame_bytes(fs[i]);
        assert(frames_bytes(fs.take(i + 1)) == frames_bytes(fs.take(i)) + fb);
        assert(region.subrange(st, st + fb.len()) =~= fb) by {
            assert forall|j: int| 0 <= j < fb.len() implies region.subrange(st, st + fb.len())[j] == fb[j] by {
                assert(fb_all.subrange(0, frames_bytes(fs.take(i + 1)).len() as int)[st0 + j] == frames_bytes(fs.take(i + 1))[st0 + j]);
                assert(region[e + (st0 + j)] == fb_all[st0 + j]);
            }
        }
        assert(t.frames@[i]@ == fs[i]);
        lemma_frame_round_trip(fs[i], region, st);
    }
    assert(frames_read_from(region, v, e, fs, ends));
    assert(last_end(e, ends) == e + fb_all.len()) by {
        if n > 0 {
            assert(ends.last() == e + frames_bytes(fs.take(n as int)).len());
        } else {
            assert(fs =~= Seq::<FrameValue>::empty());
        }
    }
    if padding > 0 {
        assert(region[e + fb_all.len() as int] == rest[fb_all.len() as int]);
    }
    assert(data[4] == 0);
    assert(data.len() >= 10 && 10 + tag_size(data) <= data.len());
    assert(frames_read_from(tag_region(data), version_of_major(data[3])->0, frames_start(data), fs, ends));
    assert(!(version_of_major(data[3]) == Some(Version::V2) && data[5] & 0x40 != 0));
    assert(tag_readable(data));
    assert(last_end(e, ends) + padding == region.len());
    assert forall|i: int| 0 <= i < t.frames@.len() implies frame_fits(#[trigger] t.frames@[i]@) by {
        assert(frame_writable(t.frames@[i]@));
    }
    assert(tag_write_ok(t, false, padding));
}

/// A tag written without unsynchronization reads without error, and every tag
/// read from it has its version, its extended header entries and its frames,
/// with the padding it was written with as its padding length.
pub proof fn lemma_tag_round_trip(t: Tag, padding: nat, r: Tag)
    requires
        tag_writable(t, padding),
        tag_read_as(tag_bytes(t, false, padding), r),
    ensures
        tag_write_ok(t, false, padding),
        tag_readable(tag_bytes(t, false, padding)),
        r.version == t.version,
        frames_view(r.frames@) == frames_view(t.frames@),
        r.padding_len == padding,
        r.extended_header is Some <==> t.extended_header is Some,
        t.extended_header matches Some(h) ==> (r.extended_header matches Some(rh)
            && entries_view(rh.flag_data@) == entries_view(h.flag_data@)),
{
    lemma_tag_written(t, padding);
    let data = tag_bytes(t, false, padding);
    let fs = frames_view(t.frames@);
    let v = t.version;
    let region = written_region(t, padding);
    let e = written_ext(t).len();
    let ends = choose|ends: Seq<nat>| {
        &&& frames_read_from(region, v, e, fs, ends)
        &&& last_end(e, ends) <= region.len()
        &&& last_end(e, ends) + padding == region.len()
        &&& (last_end(e, ends) < region.len() ==> region[last_end(e, ends) as int] == 0)
    };
    assert(r.version == v);
    let (start, rends) = choose|start: nat, rends: Seq<nat>| {
        &&& frames_read_from(tag_region(data), r.version, start, frames_view(r.frames@), rends)
        &&& r.padding_len == tag_region(data).len() - last_end(start, rends)
        &&& last_end(start, rends) <= tag_region(data).len()
        &&& (last_end(start, rends) < tag_region(data).len() ==> tag_region(data)[last_end(start, rends) as int] == 0)
        &&& start == frames_start(data)
        &&& (r.extended_header is None ==> start == 0)
        &&& (r.extended_header matches Some(h) ==> ext_header_spec(tag_region(data), r.version) == Some((entries_view(h.flag_data@), start)))
    };
    assert(start == e);
    lemma_frames_unique(region, v, e, fs, ends, frames_view(r.frames@), rends);
}

} // verus!
