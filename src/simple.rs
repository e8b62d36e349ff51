//! High-level accessors for common tag content: year, track number and total,
//! and user-defined text, each written through ID-indexed frame operations.
use vstd::prelude::*;
use vstd::string::StringSliceAdditionalSpecFns;
use vstd::utf8::encode_utf8;
use crate::encoding::Encoding;
use crate::field::{Field, FieldValue};
use crate::frame::{Frame, FrameValue, frame_text_spec, text_frame_fields, no_flags, fields_view};
use crate::id3v2::{Tag, frames_view, first_with_id, without_id};
use crate::text::{encode_spec, encode_string, string_of_chars};
use crate::version::{Id, Version, id_version, id_for, encoding_compatible_spec, is_text_spec, same_id};

verus! {

/// The decimal digits of a number, without leading zeros.
pub open spec fn decimal_chars(n: nat) -> Seq<char>
    decreases n,
{
    if n < 10 {
        seq![((n + 48) as u32) as char]
    } else {
        decimal_chars(n / 10) + seq![(((n % 10) + 48) as u32) as char]
    }
}

/// Whether a byte is an ASCII decimal digit.
pub open spec fn is_digit(b: u8) -> bool {
    48 <= b <= 57
}

/// The value of a run of decimal digits, or `None` where a byte is not a digit
/// or the value passes `u32::MAX`.
pub open spec fn digits_value(b: Seq<u8>) -> Option<nat>
    decreases b.len(),
{
    if b.len() == 0 {
        Some(0)
    } else {
        match digits_value(b.drop_last()) {
            Some(v) => if is_digit(b.last()) && v * 10 + (b.last() - 48) <= 0xFFFF_FFFF {
                Some((v * 10 + (b.last() - 48)) as nat)
            } else {
                None
            },
            None => None,
        }
    }
}

/// The number that some bytes spell in decimal: one or more digits, at most
/// `u32::MAX`.
pub open spec fn parse_u32_spec(b: Seq<u8>) -> Option<u32> {
    if b.len() == 0 {
        None
    } else {
        match digits_value(b) {
            Some(v) => Some(v as u32),
            None => None,
        }
    }
}

/// The position of the first `/` in some bytes, if any.
pub open spec fn slash_at(b: Seq<u8>) -> Option<nat>
    decreases b.len(),
{
    if b.len() == 0 {
        None
    } else if b[0] == 0x2F {
        Some(0)
    } else {
        match slash_at(b.drop_first()) {
            Some(k) => Some(k + 1),
            None => None,
        }
    }
}

/// The track number and, after a `/`, the total that a track text spells.
pub open spec fn track_pair_spec(b: Seq<u8>) -> Option<(u32, Option<u32>)> {
    match slash_at(b) {
        None => match parse_u32_spec(b) {
            Some(t) => Some((t, None)),
            None => None,
        },
        Some(k) => match (parse_u32_spec(b.subrange(0, k as int)), parse_u32_spec(b.subrange(k as int + 1, b.len() as int))) {
            (Some(t), Some(n)) => Some((t, Some(n))),
            _ => None,
        },
    }
}

/// The text of the first frame with an identifier, if it has one.
pub open spec fn text_of(t: Tag, id: Id) -> Option<Seq<char>> {
    match first_with_id(frames_view(t.frames@), id) {
        Some(k) => frame_text_spec(frames_view(t.frames@)[k as int].fields),
        None => None,
    }
}

/// Writes a number in decimal.
pub fn number_text(n: u64) -> (r: String)
    ensures
        r@ == decimal_chars(n as nat),
{
    let mut digits: Vec<char> = Vec::new();
    let mut m: u64 = n;
    while m >= 10
        invariant
            decimal_chars(n as nat) == decimal_chars(m as nat) + digits@,
        decreases m,
    {
        let d = (m % 10) as u32 + 48;
        let c = crate::text::digit_char(d);
        let ghost before = digits@;
        digits.insert(0, c);
        assert(digits@ =~= seq![(((m as nat % 10) + 48) as u32) as char] + before);
        assert(decimal_chars(m as nat) == decimal_chars(m as nat / 10) + seq![(((m as nat % 10) + 48) as u32) as char]);
        m = m / 10;
        assert(decimal_chars(n as nat) =~= decimal_chars(m as nat) + digits@);
    }
    let c = crate::text::digit_char(m as u32 + 48);
    digits.insert(0, c);
    assert(digits@ =~= decimal_chars(n as nat));
    string_of_chars(digits.as_slice())
}

/// Reads a decimal number of at most `u32::MAX` from the bytes of `data`
/// between `start` and `end`.
pub fn parse_u32(data: &[u8], start: usize, end: usize) -> (r: Option<u32>)
    requires
        start <= end <= data@.len(),
    ensures
        r == parse_u32_spec(data@.subrange(start as int, end as int)),
{
    let ghost b = data@.subrange(start as int, end as int);
    if start == end {
        return None;
    }
    let mut v: u64 = 0;
    let mut i: usize = start;
    assert(b.take(0) =~= Seq::<u8>::empty());
    while i < end
        invariant
            start <= i <= end <= data@.len(),
            b == data@.subrange(start as int, end as int),
            digits_value(b.take(i - start)) == Some(v as nat),
            v <= 0xFFFF_FFFF,
        decreases end - i,
    {
        let c = data[i];
        assert(b.take(i - start + 1).drop_last() =~= b.take(i - start));
        assert(b.take(i - start + 1).last() == c);
        if c < 48 || c > 57 || v * 10 + (c - 48) as u64 > 0xFFFF_FFFF {
            proof {
                lemma_digits_prefix_fails(b, (i - start + 1) as nat);
            }
            return None;
        }
        v = v * 10 + (c - 48) as u64;
        i = i + 1;
    }
    assert(b.take(end - start) =~= b);
    Some(v as u32)
}

proof fn lemma_digits_prefix_fails(b: Seq<u8>, k: nat)
    requires
        k <= b.len(),
        digits_value(b.take(k as int)) is None,
    ensures
        digits_value(b) is None,
    decreases b.len() - k,
{
    if k < b.len() {
        assert(b.take(k as int + 1).drop_last() =~= b.take(k as int));
        lemma_digits_prefix_fails(b, k + 1);
    } else {
        assert(b.take(k as int) =~= b);
    }
}

/// Finds the first `/` in some bytes.
fn find_slash(data: &[u8]) -> (r: Option<usize>)
    ensures
        r matches Some(k) ==> slash_at(data@) == Some(k as nat),
        r is None ==> slash_at(data@) is None,
{
    let n = data.len();
    let mut i: usize = 0;
    assert(data@.subrange(0, n as int) =~= data@);
    while i < n
        invariant
            n == data@.len(),
            i <= n,
            slash_at(data@) == (match slash_at(data@.subrange(i as int, n as int)) {
                Some(k) => Some((k + i) as nat),
                None => None::<nat>,
            }),
        decreases n - i,
    {
        let ghost rest = data@.subrange(i as int, n as int);
        assert(rest.drop_first() =~= data@.subrange(i + 1, n as int));
        if data[i] == 0x2F {
            return Some(i);
        }
        i = i + 1;
    }
    assert(data@.subrange(n as int, n as int) =~= Seq::<u8>::empty());
    None
}

impl Tag {
    /// The year of the tag: the text of its year frame read as a decimal number.
    pub fn year(&self) -> (r: Option<usize>)
        ensures
            r matches Some(y) ==> text_of(*self, self.version.year_id_spec()) matches Some(t)
                && parse_u32_spec(encode_utf8(t)) == Some(y as u32),
            r is None <==> (text_of(*self, self.version.year_id_spec()) matches Some(t) ==> parse_u32_spec(encode_utf8(t)) is None),
    {
        let id = self.version.year_id();
        match self.text_frame_text(id) {
            Some(t) => {
                let b = t.as_str().as_bytes();
                match parse_u32(b, 0, b.len()) {
                    Some(v) => {
                        assert(b@.subrange(0, b@.len() as int) =~= b@);
                        Some(v as usize)
                    },
                    None => {
                        assert(b@.subrange(0, b@.len() as int) =~= b@);
                        None
                    },
                }
            },
            None => None,
        }
    }

    /// Sets the year frame to the year in decimal, as Latin-1 text.
    pub fn set_year(&mut self, year: usize)
        ensures
            frames_view(final(self).frames@) == without_id(frames_view(old(self).frames@), old(self).version.year_id_spec()).push(
                text_frame_value(old(self).version.year_id_spec(), decimal_chars(year as nat), Encoding::Latin1)),
            final(self).version == old(self).version,
            old(self).wf() ==> final(self).wf(),
    {
        self.set_year_enc(year, Encoding::Latin1);
    }

    /// Sets the year frame to the year in decimal, in the given encoding.
    pub fn set_year_enc(&mut self, year: usize, encoding: Encoding)
        requires
            encoding_compatible_spec(old(self).version, encoding),
        ensures
            frames_view(final(self).frames@) == without_id(frames_view(old(self).frames@), old(self).version.year_id_spec()).push(
                text_frame_value(old(self).version.year_id_spec(), decimal_chars(year as nat), encoding)),
            final(self).version == old(self).version,
            old(self).wf() ==> final(self).wf(),
    {
        let id = self.version.year_id();
        proof {
            crate::version::lemma_year_track_ids(self.version);
        }
        let text = number_text(year as u64);
        self.add_text_frame_enc(id, text.as_str(), encoding);
    }

    /// The track number and, if the text has one after a `/`, the total
    /// number of tracks.
    pub fn track_pair(&self) -> (r: Option<(u32, Option<u32>)>)
        ensures
            r == (match text_of(*self, self.version.track_id_spec()) {
                Some(t) => track_pair_spec(encode_utf8(t)),
                None => None,
            }),
    {
        let id = self.version.track_id();
        match self.text_frame_text(id) {
            Some(t) => {
                let b = t.as_str().as_bytes();
                let n = b.len();
                assert(b@.subrange(0, n as int) =~= b@);
                match find_slash(b) {
                    None => match parse_u32(b, 0, n) {
                        Some(v) => Some((v, None)),
                        None => None,
                    },
                    Some(k) => {
                        proof {
                            lemma_slash_bound(b@);
                        }
                        match (parse_u32(b, 0, k), parse_u32(b, k + 1, n)) {
                            (Some(v), Some(w)) => Some((v, Some(w))),
                            _ => None,
                        }
                    },
                }
            },
            None => None,
        }
    }

    /// The track number.
    pub fn track(&self) -> (r: Option<u32>)
        ensures
            r == (match text_of(*self, self.version.track_id_spec()) {
                Some(t) => match track_pair_spec(encode_utf8(t)) {
                    Some(p) => Some(p.0),
                    None => None,
                },
                None => None,
            }),
    {
        match self.track_pair() {
            Some((t, _)) => Some(t),
            None => None,
        }
    }

    /// The total number of tracks.
    pub fn total_tracks(&self) -> (r: Option<u32>)
        ensures
            r == (match text_of(*self, self.version.track_id_spec()) {
                Some(t) => match track_pair_spec(encode_utf8(t)) {
                    Some(p) => p.1,
                    None => None,
                },
                None => None,
            }),
    {
        match self.track_pair() {
            Some((_, total)) => total,
            None => None,
        }
    }

    /// Sets the track number, keeping the total number of tracks if one is set.
    pub fn set_track_enc(&mut self, track: u32, encoding: Encoding)
        requires
            encoding_compatible_spec(old(self).version, encoding),
        ensures
            frames_view(final(self).frames@) == without_id(frames_view(old(self).frames@), old(self).version.track_id_spec()).push(
                text_frame_value(old(self).version.track_id_spec(),
                    match old(self).total_tracks_spec() {
                        Some(n) => decimal_chars(track as nat) + seq!['/'] + decimal_chars(n as nat),
                        None => decimal_chars(track as nat),
                    }, encoding)),
            final(self).version == old(self).version,
            old(self).wf() ==> final(self).wf(),
    {
        let total = self.total_tracks();
        let text = match total {
            Some(n) => concat3(number_text(track as u64), number_text(n as u64)),
            None => number_text(track as u64),
        };
        let id = self.version.track_id();
        proof {
            crate::version::lemma_year_track_ids(self.version);
        }
        self.add_text_frame_enc(id, text.as_str(), encoding);
    }

    /// Sets the total number of tracks, keeping the track number, or using 1
    /// where none is set.
    pub fn set_total_tracks_enc(&mut self, total_tracks: u32, encoding: Encoding)
        requires
            encoding_compatible_spec(old(self).version, encoding),
        ensures
            frames_view(final(self).frames@) == without_id(frames_view(old(self).frames@), old(self).version.track_id_spec()).push(
                text_frame_value(old(self).version.track_id_spec(),
                    match old(self).track_spec() {
                        Some(t) => decimal_chars(t as nat) + seq!['/'] + decimal_chars(total_tracks as nat),
                        None => seq!['1', '/'] + decimal_chars(total_tracks as nat),
                    }, encoding)),
            final(self).version == old(self).version,
            old(self).wf() ==> final(self).wf(),
    {
        let track = self.track();
        let text = match track {
            Some(t) => concat3(number_text(t as u64), number_text(total_tracks as u64)),
            None => {
                let r = concat3(number_text(1), number_text(total_tracks as u64));
                proof {
                    assert(('1' as u32) == 49);
                    vstd::utf8::char_u32_cast('1', 49u32);
                    assert(decimal_chars(1) =~= seq!['1']);
                    assert(r@ =~= seq!['1', '/'] + decimal_chars(total_tracks as nat));
                }
                r
            },
        };
        let id = self.version.track_id();
        proof {
            crate::version::lemma_year_track_ids(self.version);
        }
        self.add_text_frame_enc(id, text.as_str(), encoding);
    }

    /// The total number of tracks, as `total_tracks` returns it.
    pub open spec fn total_tracks_spec(&self) -> Option<u32> {
        match text_of(*self, self.version.track_id_spec()) {
            Some(t) => match track_pair_spec(encode_utf8(t)) {
                Some(p) => p.1,
                None => None,
            },
            None => None,
        }
    }

    /// The track number, as `track` returns it.
    pub open spec fn track_spec(&self) -> Option<u32> {
        match text_of(*self, self.version.track_id_spec()) {
            Some(t) => match track_pair_spec(encode_utf8(t)) {
                Some(p) => Some(p.0),
                None => None,
            },
            None => None,
        }
    }
}

proof fn lemma_slash_bound(b: Seq<u8>)
    ensures
        slash_at(b) matches Some(k) ==> k < b.len(),
    decreases b.len(),
{
    if b.len() > 0 {
        lemma_slash_bound(b.drop_first());
    }
}

/// Joins two strings with a `/` between them.
fn concat3(a: String, b: String) -> (r: String)
    ensures
        r@ == a@ + seq!['/'] + b@,
{
    let mut chars: Vec<char> = crate::text::chars_of_string(&a);
    chars.push('/');
    let mut rest = crate::text::chars_of_string(&b);
    chars.append(&mut rest);
    assert(chars@ =~= a@ + seq!['/'] + b@);
    string_of_chars(chars.as_slice())
}

/// The frame value of a new text frame with the given identifier and text.
pub open spec fn text_frame_value(id: Id, text: Seq<char>, e: Encoding) -> FrameValue {
    FrameValue { id, flags: no_flags(), fields: text_frame_fields(id_version(id), text, e), group_symbol: 0, encryption_method: 0 }
}

/// The key and value of a user-defined text frame: an encoding followed by two
/// strings that decode in it.
pub open spec fn txxx_pair(f: FrameValue) -> Option<(Seq<char>, Seq<char>)> {
    let fs = f.fields;
    if fs.len() == 3 && fs[0] is TextEncoding && fs[1] is Str && fs[2] is Str {
        let e = fs[0]->TextEncoding_0;
        match (crate::text::decode_spec(e, fs[1]->Str_0), crate::text::decode_spec(e, fs[2]->Str_0)) {
            (Some(k), Some(v)) => Some((k, v)),
            _ => None,
        }
    } else {
        None
    }
}

/// The key and value pairs of the user-defined text frames among `fs`.
pub open spec fn txxx_pairs(fs: Seq<FrameValue>, id: Id) -> Seq<(Seq<char>, Seq<char>)>
    decreases fs.len(),
{
    if fs.len() == 0 {
        seq![]
    } else {
        let rest = txxx_pairs(fs.drop_first(), id);
        if same_id(fs[0].id, id) && txxx_pair(fs[0]) is Some {
            seq![txxx_pair(fs[0])->0] + rest
        } else {
            rest
        }
    }
}

/// Whether `remove_txxx` removes a frame: a user-defined text frame whose key
/// and value match those given (`None` matches any), or whose content is not
/// a key and value.
pub open spec fn txxx_removed(f: FrameValue, id: Id, key: Option<Seq<char>>, value: Option<Seq<char>>) -> bool {
    same_id(f.id, id) && match txxx_pair(f) {
        None => true,
        Some((k, v)) => (key is None || key == Some(k)) && (value is None || value == Some(v)),
    }
}

/// The frames that `remove_txxx` keeps.
pub open spec fn without_txxx(fs: Seq<FrameValue>, id: Id, key: Option<Seq<char>>, value: Option<Seq<char>>) -> Seq<FrameValue>
    decreases fs.len(),
{
    if fs.len() == 0 {
        fs
    } else if txxx_removed(fs[0], id, key, value) {
        without_txxx(fs.drop_first(), id, key, value)
    } else {
        seq![fs[0]] + without_txxx(fs.drop_first(), id, key, value)
    }
}

/// The fields of a new user-defined text frame.
pub open spec fn txxx_fields(key: Seq<char>, value: Seq<char>, e: Encoding) -> Seq<FieldValue> {
    seq![FieldValue::TextEncoding(e), FieldValue::Str(encode_spec(key, e)), FieldValue::Str(encode_spec(value, e))]
}

/// The view of a list of pairs of strings.
pub open spec fn pairs_view(v: Seq<(String, String)>) -> Seq<(Seq<char>, Seq<char>)> {
    Seq::new(v.len(), |i: int| (v[i].0@, v[i].1@))
}

fn frame_txxx_pair(f: &Frame) -> (r: Option<(String, String)>)
    ensures
        r is Some <==> txxx_pair(f@) is Some,
        r matches Some(p) ==> txxx_pair(f@) == Some((p.0@, p.1@)),
{
    if f.fields.len() != 3 {
        return None;
    }
    let e = match &f.fields[0] {
        Field::TextEncoding(e) => *e,
        _ => {
            return None;
        },
    };
    let k = match &f.fields[1] {
        Field::String(b) => crate::text::string_from_encoding(e, b.as_slice()),
        _ => {
            return None;
        },
    };
    let v = match &f.fields[2] {
        Field::String(b) => crate::text::string_from_encoding(e, b.as_slice()),
        _ => {
            return None;
        },
    };
    match (k, v) {
        (Some(k), Some(v)) => Some((k, v)),
        _ => None,
    }
}

fn matches_opt(s: &String, want: Option<&str>) -> (r: bool)
    ensures
        r == (want is None || want->0@ == s@),
{
    match want {
        None => true,
        Some(w) => {
            let owned = w.to_owned();
            *s == owned
        },
    }
}

/// The text of an optional string.
pub open spec fn opt_view(o: Option<&str>) -> Option<Seq<char>> {
    match o {
        Some(s) => Some(s@),
        None => None,
    }
}

impl Tag {
    /// The key and value pairs of the user-defined text frames, in order.
    pub fn txxx(&self) -> (r: Vec<(String, String)>)
        ensures
            pairs_view(r@) == txxx_pairs(frames_view(self.frames@), self.version.txxx_id_spec()),
    {
        let id = self.version.txxx_id();
        let ghost fs = frames_view(self.frames@);
        let n = self.frames.len();
        let mut out: Vec<(String, String)> = Vec::new();
        let mut i: usize = 0;
        assert(fs.subrange(0, n as int) =~= fs);
        assert(pairs_view(out@) + txxx_pairs(fs, id) =~= txxx_pairs(fs, id));
        while i < n
            invariant
                n == self.frames@.len(),
                fs == frames_view(self.frames@),
                i <= n,
                id == self.version.txxx_id_spec(),
                pairs_view(out@) + txxx_pairs(fs.subrange(i as int, n as int), id) == txxx_pairs(fs, id),
            decreases n - i,
        {
            let ghost rest = fs.subrange(i as int, n as int);
            assert(rest.drop_first() =~= fs.subrange(i + 1, n as int));
            assert(rest[0] == self.frames@[i as int]@);
            if self.frames[i].id.same_as(&id) {
                match frame_txxx_pair(&self.frames[i]) {
                    Some(p) => {
                        let ghost pv = (p.0@, p.1@);
                        let ghost prev = out@;
                        out.push(p);
                        assert(pairs_view(out@) =~= pairs_view(prev).push(pv));
                        assert(pairs_view(out@) + txxx_pairs(fs.subrange(i + 1, n as int), id) =~= pairs_view(prev) + (seq![pv] + txxx_pairs(fs.subrange(i + 1, n as int), id)));
                    },
                    None => {},
                }
            }
            i = i + 1;
        }
        assert(fs.subrange(n as int, n as int) =~= Seq::<FrameValue>::empty());
        assert(pairs_view(out@) + Seq::<(Seq<char>, Seq<char>)>::empty() =~= pairs_view(out@));
        out
    }

    /// Removes the user-defined text frames whose key and value match those
    /// given (`None` matches any), and those whose content is not a key and a
    /// value.
    pub fn remove_txxx(&mut self, key: Option<&str>, value: Option<&str>)
        ensures
            frames_view(final(self).frames@) == without_txxx(frames_view(old(self).frames@), old(self).version.txxx_id_spec(), opt_view(key), opt_view(value)),
            final(self).version == old(self).version,
            old(self).wf() ==> final(self).wf(),
    {
        let id = self.version.txxx_id();
        let ghost orig = self.frames@;
        let ghost kv = opt_view(key);
        let ghost vv = opt_view(value);
        let mut rest: Vec<Frame> = Vec::new();
        std::mem::swap(&mut self.frames, &mut rest);
        assert(frames_view(self.frames@) + without_txxx(frames_view(rest@), id, kv, vv) =~= without_txxx(frames_view(orig), id, kv, vv));
        while rest.len() > 0
            invariant
                frames_view(self.frames@) + without_txxx(frames_view(rest@), id, kv, vv) == without_txxx(frames_view(orig), id, kv, vv),
                forall|i: int| 0 <= i < self.frames@.len() ==> exists|j: int| 0 <= j < orig.len() && #[trigger] self.frames@[i] == orig[j],
                forall|i: int| 0 <= i < rest@.len() ==> exists|j: int| 0 <= j < orig.len() && #[trigger] rest@[i] == orig[j],
                self.version == old(self).version,
                orig == old(self).frames@,
                id == old(self).version.txxx_id_spec(),
                kv == opt_view(key),
                vv == opt_view(value),
            decreases rest@.len(),
        {
            let ghost before = rest@;
            let f = rest.remove(0);
            assert(frames_view(before).drop_first() =~= frames_view(rest@));
            assert(forall|i: int| 0 <= i < rest@.len() ==> #[trigger] rest@[i] == before[i + 1]);
            assert(exists|j: int| 0 <= j < orig.len() && before[0] == orig[j]);
            let removed = if f.id.same_as(&id) {
                match frame_txxx_pair(&f) {
                    None => true,
                    Some((k, v)) => matches_opt(&k, key) && matches_opt(&v, value),
                }
            } else {
                false
            };
            assert(removed == txxx_removed(f@, id, kv, vv));
            if !removed {
                let ghost fv = f@;
                let ghost prev = self.frames@;
                self.frames.push(f);
                assert(frames_view(self.frames@) =~= frames_view(prev).push(fv));
                assert(frames_view(self.frames@) + without_txxx(frames_view(rest@), id, kv, vv) =~= frames_view(prev) + (seq![fv] + without_txxx(frames_view(rest@), id, kv, vv)));
                assert forall|i: int| 0 <= i < self.frames@.len() implies exists|j: int| 0 <= j < orig.len() && #[trigger] self.frames@[i] == orig[j] by {
                    if i < prev.len() {
                        assert(self.frames@[i] == prev[i]);
                    }
                }
            }
        }
        assert(frames_view(rest@) =~= Seq::<FrameValue>::empty());
        assert(frames_view(self.frames@) + Seq::<FrameValue>::empty() =~= frames_view(self.frames@));
        proof {
            if old(self).wf() {
                assert forall|i: int| 0 <= i < self.frames@.len() implies id_version(#[trigger] self.frames@[i].id) == self.version by {
                    let j = choose|j: int| 0 <= j < orig.len() && self.frames@[i] == orig[j];
                    assert(id_version(orig[j].id) == self.version);
                }
            }
        }
    }

    /// Adds a user-defined text frame with the given key and value in the
    /// given encoding, replacing the frames with that key.
    pub fn add_txxx_enc(&mut self, key: &str, value: &str, encoding: Encoding)
        ensures
            frames_view(final(self).frames@) == without_txxx(frames_view(old(self).frames@), old(self).version.txxx_id_spec(), Some(key@), None).push(
                FrameValue { id: old(self).version.txxx_id_spec(), flags: no_flags(), fields: txxx_fields(key@, value@, encoding), group_symbol: 0, encryption_method: 0 }),
            final(self).version == old(self).version,
            old(self).wf() ==> final(self).wf(),
    {
        self.remove_txxx(Some(key), None);
        let id = self.version.txxx_id();
        let mut frame = Frame::new(id);
        frame.fields = vec![Field::TextEncoding(encoding), Field::String(encode_string(key, encoding)), Field::String(encode_string(value, encoding))];
        assert(fields_view(frame.fields@) =~= txxx_fields(key@, value@, encoding));
        let ghost prev = self.frames@;
        let ghost fv = frame@;
        self.frames.push(frame);
        assert(frames_view(self.frames@) =~= frames_view(prev).push(fv));
        proof {
            if old(self).wf() {
                crate::version::lemma_txxx_id(self.version);
                assert forall|i: int| 0 <= i < self.frames@.len() implies id_version(#[trigger] self.frames@[i].id) == self.version by {
                    if i < prev.len() {
                        assert(self.frames@[i] == prev[i]);
                    }
                }
            }
        }
    }

    /// Adds a user-defined text frame in the tag's default encoding,
    /// replacing the frames with that key.
    pub fn add_txxx(&mut self, key: &str, value: &str)
        ensures
            frames_view(final(self).frames@) == without_txxx(frames_view(old(self).frames@), old(self).version.txxx_id_spec(), Some(key@), None).push(
                FrameValue {
                    id: old(self).version.txxx_id_spec(),
                    flags: no_flags(),
                    fields: txxx_fields(key@, value@, if old(self).version == Version::V4 { Encoding::UTF8 } else { Encoding::UTF16 }),
                    group_symbol: 0,
                    encryption_method: 0,
                }),
            final(self).version == old(self).version,
            old(self).wf() ==> final(self).wf(),
    {
        let e = self.default_encoding();
        self.add_txxx_enc(key, value, e);
    }
}

impl Tag {
    /// Sets the lead artist frame to the given text in the given encoding.
    pub fn set_artist_enc(&mut self, artist: &str, encoding: Encoding)
        requires
            encoding_compatible_spec(old(self).version, encoding),
        ensures
            frames_view(final(self).frames@) == without_id(frames_view(old(self).frames@), id_for(old(self).version, [0x54, 0x50, 0x31], [0x54, 0x50, 0x45, 0x31])).push(
                text_frame_value(id_for(old(self).version, [0x54, 0x50, 0x31], [0x54, 0x50, 0x45, 0x31]), artist@, encoding)),
            final(self).version == old(self).version,
            old(self).wf() ==> final(self).wf(),
    {
        let id = self.version.artist_id();
        proof {
            lemma_text_id(self.version, [0x54, 0x50, 0x31], [0x54, 0x50, 0x45, 0x31]);
        }
        self.add_text_frame_enc(id, artist, encoding);
    }

    /// Sets the album artist frame to the given text in the given encoding.
    pub fn set_album_artist_enc(&mut self, album_artist: &str, encoding: Encoding)
        requires
            encoding_compatible_spec(old(self).version, encoding),
        ensures
            frames_view(final(self).frames@) == without_id(frames_view(old(self).frames@), id_for(old(self).version, [0x54, 0x50, 0x32], [0x54, 0x50, 0x45, 0x32])).push(
                text_frame_value(id_for(old(self).version, [0x54, 0x50, 0x32], [0x54, 0x50, 0x45, 0x32]), album_artist@, encoding)),
            final(self).version == old(self).version,
            old(self).wf() ==> final(self).wf(),
    {
        let id = self.version.album_artist_id();
        proof {
            lemma_text_id(self.version, [0x54, 0x50, 0x32], [0x54, 0x50, 0x45, 0x32]);
        }
        self.add_text_frame_enc(id, album_artist, encoding);
    }

    /// Sets the album frame to the given text in the given encoding.
    pub fn set_album_enc(&mut self, album: &str, encoding: Encoding)
        requires
            encoding_compatible_spec(old(self).version, encoding),
        ensures
            frames_view(final(self).frames@) == without_id(frames_view(old(self).frames@), id_for(old(self).version, [0x54, 0x41, 0x4C], [0x54, 0x41, 0x4C, 0x42])).push(
                text_frame_value(id_for(old(self).version, [0x54, 0x41, 0x4C], [0x54, 0x41, 0x4C, 0x42]), album@, encoding)),
            final(self).version == old(self).version,
            old(self).wf() ==> final(self).wf(),
    {
        let id = self.version.album_id();
        proof {
            lemma_text_id(self.version, [0x54, 0x41, 0x4C], [0x54, 0x41, 0x4C, 0x42]);
        }
        self.add_text_frame_enc(id, album, encoding);
    }

    /// Sets the title frame to the given text in the given encoding.
    pub fn set_title_enc(&mut self, title: &str, encoding: Encoding)
        requires
            encoding_compatible_spec(old(self).version, encoding),
        ensures
            frames_view(final(self).frames@) == without_id(frames_view(old(self).frames@), id_for(old(self).version, [0x54, 0x54, 0x32], [0x54, 0x49, 0x54, 0x32])).push(
                text_frame_value(id_for(old(self).version, [0x54, 0x54, 0x32], [0x54, 0x49, 0x54, 0x32]), title@, encoding)),
            final(self).version == old(self).version,
            old(self).wf() ==> final(self).wf(),
    {
        let id = self.version.title_id();
        proof {
            lemma_text_id(self.version, [0x54, 0x54, 0x32], [0x54, 0x49, 0x54, 0x32]);
        }
        self.add_text_frame_enc(id, title, encoding);
    }

    /// Sets the genre frame to the given text in the given encoding.
    pub fn set_genre_enc(&mut self, genre: &str, encoding: Encoding)
        requires
            encoding_compatible_spec(old(self).version, encoding),
        ensures
            frames_view(final(self).frames@) == without_id(frames_view(old(self).frames@), id_for(old(self).version, [0x54, 0x43, 0x4F], [0x54, 0x43, 0x4F, 0x4E])).push(
                text_frame_value(id_for(old(self).version, [0x54, 0x43, 0x4F], [0x54, 0x43, 0x4F, 0x4E]), genre@, encoding)),
            final(self).version == old(self).version,
            old(self).wf() ==> final(self).wf(),
    {
        let id = self.version.genre_id();
        proof {
            lemma_text_id(self.version, [0x54, 0x43, 0x4F], [0x54, 0x43, 0x4F, 0x4E]);
        }
        self.add_text_frame_enc(id, genre, encoding);
    }

    /// Converts the tag to another version; see `convert_version`.
    pub fn set_version(&mut self, version: Version)
        ensures
            old(self).version == version ==> *final(self) == *old(self),
            old(self).version != version ==> {
                &&& final(self).version == version
                &&& final(self).flags == crate::id3v2::converted_flags(old(self).flags, old(self).version, version)
                &&& frames_view(final(self).frames@) == crate::id3v2::converted_frames(frames_view(old(self).frames@), version)
                &&& final(self).padding_len == old(self).padding_len
                &&& final(self).extended_header is None
            },
            old(self).version != version || old(self).wf() ==> final(self).wf(),
    {
        self.convert_version(version);
    }

    /// The text of the first frame with the given identifier; see `text_frame_text`.
    pub fn text_for_frame_id(&self, id: Id) -> (r: Option<String>)
        ensures
            r is Some <==> text_of(*self, id) is Some,
            r matches Some(t) ==> text_of(*self, id) == Some(t@),
    {
        self.text_frame_text(id)
    }

    /// Sets the unsynchronised lyrics frame: language, description and text
    /// in the given encoding, replacing any lyrics frames.
    pub fn set_lyrics_enc(&mut self, lang: [u8; 3], description: &str, text: &str, encoding: Encoding)
        ensures
            frames_view(final(self).frames@) == without_id(frames_view(old(self).frames@), id_for(old(self).version, [0x55, 0x4C, 0x54], [0x55, 0x53, 0x4C, 0x54])).push(
                FrameValue {
                    id: id_for(old(self).version, [0x55, 0x4C, 0x54], [0x55, 0x53, 0x4C, 0x54]),
                    flags: no_flags(),
                    fields: described_text_fields(lang@, description@, text@, encoding),
                    group_symbol: 0,
                    encryption_method: 0,
                }),
            final(self).version == old(self).version,
            old(self).wf() ==> final(self).wf(),
    {
        let id = self.version.lyrics_id();
        self.remove_frames_by_id(id);
        let mut frame = Frame::new(id);
        frame.fields = vec![
            Field::TextEncoding(encoding),
            Field::Language(lang),
            Field::String(encode_string(description, encoding)),
            Field::StringFull(encode_string(text, encoding)),
        ];
        assert(fields_view(frame.fields@) =~= described_text_fields(lang@, description@, text@, encoding));
        let ghost prev = self.frames@;
        let ghost fv = frame@;
        self.frames.push(frame);
        assert(frames_view(self.frames@) =~= frames_view(prev).push(fv));
        proof {
            if old(self).wf() {
                assert forall|i: int| 0 <= i < self.frames@.len() implies id_version(#[trigger] self.frames@[i].id) == self.version by {
                    if i < prev.len() {
                        assert(self.frames@[i] == prev[i]);
                    }
                }
            }
        }
    }
}

/// The fields of a lyrics or comment frame: encoding, language, description
/// and text.
pub open spec fn described_text_fields(lang: Seq<u8>, description: Seq<char>, text: Seq<char>, e: Encoding) -> Seq<FieldValue> {
    seq![FieldValue::TextEncoding(e), FieldValue::Language(lang), FieldValue::Str(encode_spec(description, e)),
        FieldValue::StrFull(encode_spec(text, e))]
}

/// An identifier of text frames whose second byte is not `X` names a
/// standard text frame of its version.
proof fn lemma_text_id(v: Version, a: [u8; 3], b: [u8; 4])
    requires
        a@[0] == 0x54 && a@[1] != 0x58,
        b@[0] == 0x54 && b@[1] != 0x58,
    ensures
        is_text_spec(id_for(v, a, b)),
        id_version(id_for(v, a, b)) == v,
{
    assert(seq![0x54u8, 0x58, 0x58][1] == 0x58);
    assert(seq![0x54u8, 0x58, 0x58, 0x58][1] == 0x58);
}

/// A user-defined text value: its key and its value.
#[derive(Debug, Clone, PartialEq, Eq)]
pub struct ExtendedText {
    /// The key (the description of the TXXX frame).
    pub key: String,
    /// The value.
    pub value: String,
}

/// Unsynchronised lyrics: language, description and text.
#[derive(Debug, Clone, PartialEq, Eq)]
pub struct Lyrics {
    /// The ISO 639-2 language code.
    pub lang: [u8; 3],
    /// The description of the lyrics.
    pub description: String,
    /// The text of the lyrics.
    pub text: String,
}

/// A user-defined link: its description and its URL.
#[derive(Debug, Clone, PartialEq, Eq)]
pub struct ExtendedLink {
    /// The description (of the WXXX frame).
    pub description: String,
    /// The URL.
    pub link: String,
}

/// A comment: language, description and text.
#[derive(Debug, Clone, PartialEq, Eq)]
pub struct Comment {
    /// The ISO 639-2 language code.
    pub lang: [u8; 3],
    /// The description that keys the comment.
    pub description: String,
    /// The text of the comment.
    pub text: String,
}

/// The language, description and text of a comment frame whose strings
/// decode in its encoding.
pub open spec fn comment_parts(f: FrameValue) -> Option<(Seq<u8>, Seq<char>, Seq<char>)> {
    let fs = f.fields;
    if fs.len() == 4 && fs[0] is TextEncoding && fs[1] is Language && fs[2] is Str && fs[3] is StrFull {
        let e = fs[0]->TextEncoding_0;
        match (crate::text::decode_spec(e, fs[2]->Str_0), crate::text::decode_spec(e, fs[3]->StrFull_0)) {
            (Some(d), Some(t)) => Some((fs[1]->Language_0, d, t)),
            _ => None,
        }
    } else {
        None
    }
}

/// The description and text of the comments among `fs`, in order.
pub open spec fn comment_list(fs: Seq<FrameValue>, id: Id) -> Seq<(Seq<char>, Seq<char>)>
    decreases fs.len(),
{
    if fs.len() == 0 {
        seq![]
    } else {
        let rest = comment_list(fs.drop_first(), id);
        if same_id(fs[0].id, id) && comment_parts(fs[0]) is Some {
            seq![((comment_parts(fs[0])->0).1, (comment_parts(fs[0])->0).2)] + rest
        } else {
            rest
        }
    }
}

/// Whether `remove_comment` removes a frame: a comment frame whose
/// description and text match those given (`None` matches any). A comment
/// frame whose content is not a comment matches only when both are `None`.
pub open spec fn comment_removed(f: FrameValue, id: Id, description: Option<Seq<char>>, text: Option<Seq<char>>) -> bool {
    same_id(f.id, id) && match comment_parts(f) {
        None => description is None && text is None,
        Some((l, d, t)) => (description is None || description == Some(d)) && (text is None || text == Some(t)),
    }
}

/// The frames that `remove_comment` keeps.
pub open spec fn without_comment(fs: Seq<FrameValue>, id: Id, description: Option<Seq<char>>, text: Option<Seq<char>>) -> Seq<FrameValue>
    decreases fs.len(),
{
    if fs.len() == 0 {
        fs
    } else if comment_removed(fs[0], id, description, text) {
        without_comment(fs.drop_first(), id, description, text)
    } else {
        seq![fs[0]] + without_comment(fs.drop_first(), id, description, text)
    }
}

/// The view of a list of comments.
pub open spec fn comments_view(v: Seq<(String, String)>) -> Seq<(Seq<char>, Seq<char>)> {
    Seq::new(v.len(), |i: int| (v[i].0@, v[i].1@))
}

fn frame_comment(f: &Frame) -> (r: Option<Comment>)
    ensures
        r is Some <==> comment_parts(f@) is Some,
        r matches Some(c) ==> comment_parts(f@) == Some((c.lang@, c.description@, c.text@)),
{
    if f.fields.len() != 4 {
        return None;
    }
    let e = match &f.fields[0] {
        Field::TextEncoding(e) => *e,
        _ => {
            return None;
        },
    };
    let lang = match &f.fields[1] {
        Field::Language(l) => *l,
        _ => {
            return None;
        },
    };
    let d = match &f.fields[2] {
        Field::String(b) => crate::text::string_from_encoding(e, b.as_slice()),
        _ => {
            return None;
        },
    };
    let t = match &f.fields[3] {
        Field::StringFull(b) => crate::text::string_from_encoding(e, b.as_slice()),
        _ => {
            return None;
        },
    };
    match (d, t) {
        (Some(description), Some(text)) => Some(Comment { lang, description, text }),
        _ => None,
    }
}

impl Tag {
    /// The description and text of each comment of the tag, in order.
    pub fn comments(&self) -> (r: Vec<(String, String)>)
        ensures
            comments_view(r@) == comment_list(frames_view(self.frames@), id_for(self.version, [0x43, 0x4F, 0x4D], [0x43, 0x4F, 0x4D, 0x4D])),
    {
        let id = self.version.comment_id();
        let ghost fs = frames_view(self.frames@);
        let n = self.frames.len();
        let mut out: Vec<(String, String)> = Vec::new();
        let mut i: usize = 0;
        assert(fs.subrange(0, n as int) =~= fs);
        assert(comments_view(out@) + comment_list(fs, id) =~= comment_list(fs, id));
        while i < n
            invariant
                n == self.frames@.len(),
                fs == frames_view(self.frames@),
                i <= n,
                comments_view(out@) + comment_list(fs.subrange(i as int, n as int), id) == comment_list(fs, id),
            decreases n - i,
        {
            let ghost rest = fs.subrange(i as int, n as int);
            assert(rest.drop_first() =~= fs.subrange(i + 1, n as int));
            assert(rest[0] == self.frames@[i as int]@);
            if self.frames[i].id.same_as(&id) {
                match frame_comment(&self.frames[i]) {
                    Some(c) => {
                        let ghost cv = (c.description@, c.text@);
                        let ghost prev = out@;
                        out.push((c.description, c.text));
                        assert(comments_view(out@) =~= comments_view(prev).push(cv));
                        assert(comments_view(out@) + comment_list(fs.subrange(i + 1, n as int), id) =~= comments_view(prev) + (seq![cv] + comment_list(fs.subrange(i + 1, n as int), id)));
                    },
                    None => {},
                }
            }
            i = i + 1;
        }
        assert(fs.subrange(n as int, n as int) =~= Seq::<FrameValue>::empty());
        assert(comments_view(out@) + Seq::<(Seq<char>, Seq<char>)>::empty() =~= comments_view(out@));
        out
    }

    /// Removes the comments whose description and text match those given
    /// (`None` matches any). Comment frames that hold no readable comment are
    /// removed only when both are `None`.
    pub fn remove_comment(&mut self, description: Option<&str>, text: Option<&str>)
        ensures
            frames_view(final(self).frames@) == without_comment(frames_view(old(self).frames@),
                id_for(old(self).version, [0x43, 0x4F, 0x4D], [0x43, 0x4F, 0x4D, 0x4D]), opt_view(description), opt_view(text)),
            final(self).version == old(self).version,
            old(self).wf() ==> final(self).wf(),
    {
        let id = self.version.comment_id();
        let ghost orig = self.frames@;
        let ghost dv = opt_view(description);
        let ghost tv = opt_view(text);
        let mut rest: Vec<Frame> = Vec::new();
        std::mem::swap(&mut self.frames, &mut rest);
        assert(frames_view(self.frames@) + without_comment(frames_view(rest@), id, dv, tv) =~= without_comment(frames_view(orig), id, dv, tv));
        while rest.len() > 0
            invariant
                frames_view(self.frames@) + without_comment(frames_view(rest@), id, dv, tv) == without_comment(frames_view(orig), id, dv, tv),
                forall|i: int| 0 <= i < self.frames@.len() ==> exists|j: int| 0 <= j < orig.len() && #[trigger] self.frames@[i] == orig[j],
                forall|i: int| 0 <= i < rest@.len() ==> exists|j: int| 0 <= j < orig.len() && #[trigger] rest@[i] == orig[j],
                self.version == old(self).version,
                orig == old(self).frames@,
                id == id_for(old(self).version, [0x43, 0x4F, 0x4D], [0x43, 0x4F, 0x4D, 0x4D]),
                dv == opt_view(description),
                tv == opt_view(text),
            decreases rest@.len(),
        {
            let ghost before = rest@;
            let f = rest.remove(0);
            assert(frames_view(before).drop_first() =~= frames_view(rest@));
            assert(forall|i: int| 0 <= i < rest@.len() ==> #[trigger] rest@[i] == before[i + 1]);
            assert(exists|j: int| 0 <= j < orig.len() && before[0] == orig[j]);
            let removed = if f.id.same_as(&id) {
                match frame_comment(&f) {
                    None => description.is_none() && text.is_none(),
                    Some(c) => matches_opt(&c.description, description) && matches_opt(&c.text, text),
                }
            } else {
                false
            };
            assert(removed == comment_removed(f@, id, dv, tv));
            if !removed {
                let ghost fv = f@;
                let ghost prev = self.frames@;
                self.frames.push(f);
                assert(frames_view(self.frames@) =~= frames_view(prev).push(fv));
                assert(frames_view(self.frames@) + without_comment(frames_view(rest@), id, dv, tv) =~= frames_view(prev) + (seq![fv] + without_comment(frames_view(rest@), id, dv, tv)));
                assert forall|i: int| 0 <= i < self.frames@.len() implies exists|j: int| 0 <= j < orig.len() && #[trigger] self.frames@[i] == orig[j] by {
                    if i < prev.len() {
                        assert(self.frames@[i] == prev[i]);
                    }
                }
            }
        }
        assert(frames_view(rest@) =~= Seq::<FrameValue>::empty());
        assert(frames_view(self.frames@) + Seq::<FrameValue>::empty() =~= frames_view(self.frames@));
        proof {
            if old(self).wf() {
                assert forall|i: int| 0 <= i < self.frames@.len() implies id_version(#[trigger] self.frames@[i].id) == self.version by {
                    let j = choose|j: int| 0 <= j < orig.len() && self.frames@[i] == orig[j];
                    assert(id_version(orig[j].id) == self.version);
                }
            }
        }
    }

    /// Adds a comment in the given language and encoding, replacing the
    /// comments with the same description.
    pub fn add_comment_enc(&mut self, lang: [u8; 3], description: &str, text: &str, encoding: Encoding)
        ensures
            frames_view(final(self).frames@) == without_comment(frames_view(old(self).frames@),
                id_for(old(self).version, [0x43, 0x4F, 0x4D], [0x43, 0x4F, 0x4D, 0x4D]), Some(description@), None).push(
                FrameValue {
                    id: id_for(old(self).version, [0x43, 0x4F, 0x4D], [0x43, 0x4F, 0x4D, 0x4D]),
                    flags: no_flags(),
                    fields: described_text_fields(lang@, description@, text@, encoding),
                    group_symbol: 0,
                    encryption_method: 0,
                }),
            final(self).version == old(self).version,
            old(self).wf() ==> final(self).wf(),
    {
        self.remove_comment(Some(description), None);
        let id = self.version.comment_id();
        let mut frame = Frame::new(id);
        frame.fields = vec![
            Field::TextEncoding(encoding),
            Field::Language(lang),
            Field::String(encode_string(description, encoding)),
            Field::StringFull(encode_string(text, encoding)),
        ];
        assert(fields_view(frame.fields@) =~= described_text_fields(lang@, description@, text@, encoding));
        let ghost prev = self.frames@;
        let ghost fv = frame@;
        self.frames.push(frame);
        assert(frames_view(self.frames@) =~= frames_view(prev).push(fv));
        proof {
            if old(self).wf() {
                assert forall|i: int| 0 <= i < self.frames@.len() implies id_version(#[trigger] self.frames@[i].id) == self.version by {
                    if i < prev.len() {
                        assert(self.frames@[i] == prev[i]);
                    }
                }
            }
        }
    }

    /// Adds an English comment in the tag's default encoding, replacing the
    /// comments with the same description.
    pub fn add_comment(&mut self, description: &str, text: &str)
        ensures
            frames_view(final(self).frames@) == without_comment(frames_view(old(self).frames@),
                id_for(old(self).version, [0x43, 0x4F, 0x4D], [0x43, 0x4F, 0x4D, 0x4D]), Some(description@), None).push(
                FrameValue {
                    id: id_for(old(self).version, [0x43, 0x4F, 0x4D], [0x43, 0x4F, 0x4D, 0x4D]),
                    flags: no_flags(),
                    fields: described_text_fields(seq![0x65u8, 0x6E, 0x67], description@, text@,
                        if old(self).version == Version::V4 { Encoding::UTF8 } else { Encoding::UTF16 }),
                    group_symbol: 0,
                    encryption_method: 0,
                }),
            final(self).version == old(self).version,
            old(self).wf() ==> final(self).wf(),
    {
        let e = self.default_encoding();
        let lang: [u8; 3] = [0x65, 0x6E, 0x67];
        assert(lang@ =~= seq![0x65u8, 0x6E, 0x67]);
        self.add_comment_enc(lang, description, text, e);
    }

    /// The frames with the given identifier, in order.
    pub fn get_frames_by_id(&self, id: Id) -> (r: Vec<&Frame>)
        ensures
            Seq::new(r@.len(), |i: int| r@[i]@) == frames_with_id(frames_view(self.frames@), id),
    {
        let ghost fs = frames_view(self.frames@);
        let n = self.frames.len();
        let mut out: Vec<&Frame> = Vec::new();
        let mut i: usize = 0;
        assert(fs.subrange(0, n as int) =~= fs);
        assert(Seq::new(out@.len(), |k: int| out@[k]@) + frames_with_id(fs, id) =~= frames_with_id(fs, id));
        while i < n
            invariant
                n == self.frames@.len(),
                fs == frames_view(self.frames@),
                i <= n,
                Seq::new(out@.len(), |k: int| out@[k]@) + frames_with_id(fs.subrange(i as int, n as int), id) == frames_with_id(fs, id),
            decreases n - i,
        {
            let ghost rest = fs.subrange(i as int, n as int);
            assert(rest.drop_first() =~= fs.subrange(i + 1, n as int));
            assert(rest[0] == self.frames@[i as int]@);
            if self.frames[i].id.same_as(&id) {
                let ghost prev = Seq::new(out@.len(), |k: int| out@[k]@);
                out.push(&self.frames[i]);
                assert(Seq::new(out@.len(), |k: int| out@[k]@) =~= prev.push(self.frames@[i as int]@));
                assert(Seq::new(out@.len(), |k: int| out@[k]@) + frames_with_id(fs.subrange(i + 1, n as int), id) =~= prev + (seq![rest[0]] + frames_with_id(fs.subrange(i + 1, n as int), id)));
            }
            i = i + 1;
        }
        assert(fs.subrange(n as int, n as int) =~= Seq::<FrameValue>::empty());
        assert(Seq::new(out@.len(), |k: int| out@[k]@) + Seq::<FrameValue>::empty() =~= Seq::new(out@.len(), |k: int| out@[k]@));
        out
    }
}

/// The frames whose identifier is `id`, in order.
pub open spec fn frames_with_id(fs: Seq<FrameValue>, id: Id) -> Seq<FrameValue>
    decreases fs.len(),
{
    if fs.len() == 0 {
        fs
    } else if same_id(fs[0].id, id) {
        seq![fs[0]] + frames_with_id(fs.drop_first(), id)
    } else {
        frames_with_id(fs.drop_first(), id)
    }
}

/// An attached picture: its MIME type (in ID3v2.2, a three-letter image
/// format), picture type, description and image data.
#[derive(Debug, Clone, PartialEq, Eq)]
pub struct Picture {
    /// The MIME type, or the ID3v2.2 image format.
    pub mime_type: String,
    /// The picture type (3 is the front cover).
    pub picture_type: u8,
    /// The description.
    pub description: String,
    /// The image data.
    pub data: Vec<u8>,
}

/// The MIME type (or ID3v2.2 format), type, description and data of a picture
/// frame whose strings decode.
pub open spec fn picture_parts(f: FrameValue) -> Option<(Seq<char>, u8, Seq<char>, Seq<u8>)> {
    let fs = f.fields;
    if fs.len() == 5 && fs[0] is TextEncoding && fs[2] is Int8 && fs[3] is Str && fs[4] is BinaryData {
        let e = fs[0]->TextEncoding_0;
        let mime = if fs[1] is Latin1 {
            crate::text::decode_spec(Encoding::Latin1, fs[1]->Latin1_0)
        } else if fs[1] is Int24 {
            crate::text::decode_spec(Encoding::Latin1, seq![fs[1]->Int24_0, fs[1]->Int24_1, fs[1]->Int24_2])
        } else {
            None
        };
        match (mime, crate::text::decode_spec(e, fs[3]->Str_0)) {
            (Some(m), Some(d)) => Some((m, fs[2]->Int8_0, d, fs[4]->BinaryData_0)),
            _ => None,
        }
    } else {
        None
    }
}

/// The pictures among `fs`, in order.
pub open spec fn picture_list(fs: Seq<FrameValue>, id: Id) -> Seq<(Seq<char>, u8, Seq<char>, Seq<u8>)>
    decreases fs.len(),
{
    if fs.len() == 0 {
        seq![]
    } else {
        let rest = picture_list(fs.drop_first(), id);
        if same_id(fs[0].id, id) && picture_parts(fs[0]) is Some {
            seq![picture_parts(fs[0])->0] + rest
        } else {
            rest
        }
    }
}

/// Whether `remove_picture_type` removes a frame: a picture frame of that
/// type, or one that holds no picture.
pub open spec fn picture_removed(f: FrameValue, id: Id, t: u8) -> bool {
    same_id(f.id, id) && match picture_parts(f) {
        None => true,
        Some(p) => p.1 == t,
    }
}

/// The frames that `remove_picture_type` keeps.
pub open spec fn without_picture(fs: Seq<FrameValue>, id: Id, t: u8) -> Seq<FrameValue>
    decreases fs.len(),
{
    if fs.len() == 0 {
        fs
    } else if picture_removed(fs[0], id, t) {
        without_picture(fs.drop_first(), id, t)
    } else {
        seq![fs[0]] + without_picture(fs.drop_first(), id, t)
    }
}

/// The view of a list of pictures.
pub open spec fn pictures_view(v: Seq<Picture>) -> Seq<(Seq<char>, u8, Seq<char>, Seq<u8>)> {
    Seq::new(v.len(), |i: int| (v[i].mime_type@, v[i].picture_type, v[i].description@, v[i].data@))
}

/// The fields of a new picture frame of a version: ID3v2.2 keeps the first
/// three Latin-1 bytes of the MIME type as its image format.
pub open spec fn picture_fields(v: Version, mime: Seq<char>, t: u8, description: Seq<char>, data: Seq<u8>, e: Encoding) -> Seq<FieldValue> {
    let m = encode_spec(mime, Encoding::Latin1);
    let tail = seq![FieldValue::Int8(t), FieldValue::Str(encode_spec(description, e)), FieldValue::BinaryData(data)];
    if v == Version::V2 {
        seq![FieldValue::TextEncoding(e), FieldValue::Int24(crate::id3v1::byte_or_zero(m, 0), crate::id3v1::byte_or_zero(m, 1),
            crate::id3v1::byte_or_zero(m, 2))] + tail
    } else {
        seq![FieldValue::TextEncoding(e), FieldValue::Latin1(m)] + tail
    }
}

fn frame_picture(f: &Frame) -> (r: Option<Picture>)
    ensures
        r is Some <==> picture_parts(f@) is Some,
        r matches Some(p) ==> picture_parts(f@) == Some((p.mime_type@, p.picture_type, p.description@, p.data@)),
{
    if f.fields.len() != 5 {
        return None;
    }
    let e = match &f.fields[0] {
        Field::TextEncoding(e) => *e,
        _ => {
            return None;
        },
    };
    let picture_type = match &f.fields[2] {
        Field::Int8(t) => *t,
        _ => {
            return None;
        },
    };
    let d = match &f.fields[3] {
        Field::String(b) => crate::text::string_from_encoding(e, b.as_slice()),
        _ => {
            return None;
        },
    };
    let data = match &f.fields[4] {
        Field::BinaryData(b) => vstd::slice::slice_to_vec(b.as_slice()),
        _ => {
            return None;
        },
    };
    let m = match &f.fields[1] {
        Field::Latin1(b) => crate::text::string_from_encoding(Encoding::Latin1, b.as_slice()),
        Field::Int24(a, b, c) => {
            let fmt = [*a, *b, *c];
            assert(fmt@ =~= seq![*a, *b, *c]);
            crate::text::string_from_encoding(Encoding::Latin1, fmt.as_slice())
        },
        _ => {
            return None;
        },
    };
    match (m, d) {
        (Some(mime_type), Some(description)) => Some(Picture { mime_type, picture_type, description, data }),
        _ => None,
    }
}

impl Tag {
    /// The pictures of the tag, in order.
    pub fn pictures(&self) -> (r: Vec<Picture>)
        ensures
            pictures_view(r@) == picture_list(frames_view(self.frames@), id_for(self.version, [0x50, 0x49, 0x43], [0x41, 0x50, 0x49, 0x43])),
    {
        let id = self.version.picture_id();
        let ghost fs = frames_view(self.frames@);
        let n = self.frames.len();
        let mut out: Vec<Picture> = Vec::new();
        let mut i: usize = 0;
        assert(fs.subrange(0, n as int) =~= fs);
        assert(pictures_view(out@) + picture_list(fs, id) =~= picture_list(fs, id));
        while i < n
            invariant
                n == self.frames@.len(),
                fs == frames_view(self.frames@),
                i <= n,
                pictures_view(out@) + picture_list(fs.subrange(i as int, n as int), id) == picture_list(fs, id),
            decreases n - i,
        {
            let ghost rest = fs.subrange(i as int, n as int);
            assert(rest.drop_first() =~= fs.subrange(i + 1, n as int));
            assert(rest[0] == self.frames@[i as int]@);
            if self.frames[i].id.same_as(&id) {
                match frame_picture(&self.frames[i]) {
                    Some(p) => {
                        let ghost pv = (p.mime_type@, p.picture_type, p.description@, p.data@);
                        let ghost prev = out@;
                        out.push(p);
                        assert(pictures_view(out@) =~= pictures_view(prev).push(pv));
                        assert(pictures_view(out@) + picture_list(fs.subrange(i + 1, n as int), id) =~= pictures_view(prev) + (seq![pv] + picture_list(fs.subrange(i + 1, n as int), id)));
                    },
                    None => {},
                }
            }
            i = i + 1;
        }
        assert(fs.subrange(n as int, n as int) =~= Seq::<FrameValue>::empty());
        assert(pictures_view(out@) + Seq::<(Seq<char>, u8, Seq<char>, Seq<u8>)>::empty() =~= pictures_view(out@));
        out
    }

    /// Removes the pictures of the given type, and the picture frames that
    /// hold no picture.
    pub fn remove_picture_type(&mut self, picture_type: u8)
        ensures
            frames_view(final(self).frames@) == without_picture(frames_view(old(self).frames@),
                id_for(old(self).version, [0x50, 0x49, 0x43], [0x41, 0x50, 0x49, 0x43]), picture_type),
            final(self).version == old(self).version,
            old(self).wf() ==> final(self).wf(),
    {
        let id = self.version.picture_id();
        let ghost orig = self.frames@;
        let mut rest: Vec<Frame> = Vec::new();
        std::mem::swap(&mut self.frames, &mut rest);
        assert(frames_view(self.frames@) + without_picture(frames_view(rest@), id, picture_type) =~= without_picture(frames_view(orig), id, picture_type));
        while rest.len() > 0
            invariant
                frames_view(self.frames@) + without_picture(frames_view(rest@), id, picture_type) == without_picture(frames_view(orig), id, picture_type),
                forall|i: int| 0 <= i < self.frames@.len() ==> exists|j: int| 0 <= j < orig.len() && #[trigger] self.frames@[i] == orig[j],
                forall|i: int| 0 <= i < rest@.len() ==> exists|j: int| 0 <= j < orig.len() && #[trigger] rest@[i] == orig[j],
                self.version == old(self).version,
                orig == old(self).frames@,
                id == id_for(old(self).version, [0x50, 0x49, 0x43], [0x41, 0x50, 0x49, 0x43]),
            decreases rest@.len(),
        {
            let ghost before = rest@;
            let f = rest.remove(0);
            assert(frames_view(before).drop_first() =~= frames_view(rest@));
            assert(forall|i: int| 0 <= i < rest@.len() ==> #[trigger] rest@[i] == before[i + 1]);
            assert(exists|j: int| 0 <= j < orig.len() && before[0] == orig[j]);
            let removed = if f.id.same_as(&id) {
                match frame_picture(&f) {
                    None => true,
                    Some(p) => p.picture_type == picture_type,
                }
            } else {
                false
            };
            assert(removed == picture_removed(f@, id, picture_type));
            if !removed {
                let ghost fv = f@;
                let ghost prev = self.frames@;
                self.frames.push(f);
                assert(frames_view(self.frames@) =~= frames_view(prev).push(fv));
                assert(frames_view(self.frames@) + without_picture(frames_view(rest@), id, picture_type) =~= frames_view(prev) + (seq![fv] + without_picture(frames_view(rest@), id, picture_type)));
                assert forall|i: int| 0 <= i < self.frames@.len() implies exists|j: int| 0 <= j < orig.len() && #[trigger] self.frames@[i] == orig[j] by {
                    if i < prev.len() {
                        assert(self.frames@[i] == prev[i]);
                    }
                }
            }
        }
        assert(frames_view(rest@) =~= Seq::<FrameValue>::empty());
        assert(frames_view(self.frames@) + Seq::<FrameValue>::empty() =~= frames_view(self.frames@));
        proof {
            if old(self).wf() {
                assert forall|i: int| 0 <= i < self.frames@.len() implies id_version(#[trigger] self.frames@[i].id) == self.version by {
                    let j = choose|j: int| 0 <= j < orig.len() && self.frames@[i] == orig[j];
                    assert(id_version(orig[j].id) == self.version);
                }
            }
        }
    }

    /// Adds a picture with a description in the given encoding, replacing the
    /// pictures of the same type.
    pub fn add_picture_enc(&mut self, mime_type: &str, picture_type: u8, description: &str, data: &[u8], encoding: Encoding)
        ensures
            frames_view(final(self).frames@) == without_picture(frames_view(old(self).frames@),
                id_for(old(self).version, [0x50, 0x49, 0x43], [0x41, 0x50, 0x49, 0x43]), picture_type).push(
                FrameValue {
                    id: id_for(old(self).version, [0x50, 0x49, 0x43], [0x41, 0x50, 0x49, 0x43]),
                    flags: no_flags(),
                    fields: picture_fields(old(self).version, mime_type@, picture_type, description@, data@, encoding),
                    group_symbol: 0,
                    encryption_method: 0,
                }),
            final(self).version == old(self).version,
            old(self).wf() ==> final(self).wf(),
    {
        self.remove_picture_type(picture_type);
        let id = self.version.picture_id();
        let m = encode_string(mime_type, Encoding::Latin1);
        let second = if self.version == Version::V2 {
            let a = if m.len() > 0 { m[0] } else { 0 };
            let b = if m.len() > 1 { m[1] } else { 0 };
            let c = if m.len() > 2 { m[2] } else { 0 };
            Field::Int24(a, b, c)
        } else {
            Field::Latin1(m)
        };
        let mut frame = Frame::new(id);
        frame.fields = vec![
            Field::TextEncoding(encoding),
            second,
            Field::Int8(picture_type),
            Field::String(encode_string(description, encoding)),
            Field::BinaryData(vstd::slice::slice_to_vec(data)),
        ];
        assert(fields_view(frame.fields@) =~= picture_fields(self.version, mime_type@, picture_type, description@, data@, encoding));
        let ghost prev = self.frames@;
        let ghost fv = frame@;
        self.frames.push(frame);
        assert(frames_view(self.frames@) =~= frames_view(prev).push(fv));
        proof {
            if old(self).wf() {
                assert forall|i: int| 0 <= i < self.frames@.len() implies id_version(#[trigger] self.frames@[i].id) == self.version by {
                    if i < prev.len() {
                        assert(self.frames@[i] == prev[i]);
                    }
                }
            }
        }
    }

    /// Adds a picture without a description, in Latin-1, replacing the
    /// pictures of the same type.
    pub fn add_picture(&mut self, mime_type: &str, picture_type: u8, data: &[u8])
        ensures
            frames_view(final(self).frames@) == without_picture(frames_view(old(self).frames@),
                id_for(old(self).version, [0x50, 0x49, 0x43], [0x41, 0x50, 0x49, 0x43]), picture_type).push(
                FrameValue {
                    id: id_for(old(self).version, [0x50, 0x49, 0x43], [0x41, 0x50, 0x49, 0x43]),
                    flags: no_flags(),
                    fields: picture_fields(old(self).version, mime_type@, picture_type, Seq::empty(), data@, Encoding::Latin1),
                    group_symbol: 0,
                    encryption_method: 0,
                }),
            final(self).version == old(self).version,
            old(self).wf() ==> final(self).wf(),
    {
        let empty = "";
        proof {
            reveal_strlit("");
        }
        assert(empty@ =~= Seq::<char>::empty());
        self.add_picture_enc(mime_type, picture_type, empty, data, Encoding::Latin1);
    }
}

} // verus!
