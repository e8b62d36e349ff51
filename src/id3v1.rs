//! ID3v1, ID3v1.1 and extended ID3v1 tags: fixed-layout records at the end of
//! a file.
use vstd::prelude::*;
use crate::error::{Error, unexpected_end};
use crate::util::copy_range;

verus! {

/// The fields in an ID3v1 tag, including the "1.1" track number field.
#[derive(Debug, Clone, Copy, PartialEq, Eq, Structural)]
pub enum Fields {
    Title,
    Artist,
    Album,
    Year,
    Comment,
    Track,
    Genre,
}

impl Fields {
    /// The width of the field in bytes; the comment is 30 bytes without a
    /// track number.
    pub fn length(&self) -> (r: usize)
        ensures
            r == (match *self {
                Fields::Title | Fields::Artist | Fields::Album | Fields::Comment => 30usize,
                Fields::Year => 4,
                Fields::Track | Fields::Genre => 1,
            }),
    {
        match self {
            Fields::Title | Fields::Artist | Fields::Album | Fields::Comment => 30,
            Fields::Year => 4,
            Fields::Track | Fields::Genre => 1,
        }
    }
}

/// The fields in an extended ID3v1 tag.
#[derive(Debug, Clone, Copy, PartialEq, Eq, Structural)]
pub enum XFields {
    XTitle,
    XArtist,
    XAlbum,
    Speed,
    XGenre,
    Start,
    End,
}

impl XFields {
    /// The width of the field in bytes.
    pub fn length(&self) -> (r: usize)
        ensures
            r == (match *self {
                XFields::XTitle | XFields::XArtist | XFields::XAlbum => 60usize,
                XFields::Speed => 1,
                XFields::XGenre => 30,
                XFields::Start | XFields::End => 6,
            }),
    {
        match self {
            XFields::XTitle | XFields::XArtist | XFields::XAlbum => 60,
            XFields::Speed => 1,
            XFields::XGenre => 30,
            XFields::Start | XFields::End => 6,
        }
    }
}

/// How far from the end of a file an ID3v1 tag starts.
pub const TAG_OFFSET: u64 = 128;

/// How far from the end of a file an extended ID3v1 tag starts.
pub const TAGPLUS_OFFSET: u64 = 355;

/// The largest year an ID3v1 tag holds.
pub const MAX_YEAR: u16 = 9999;

/// The largest time an extended ID3v1 tag holds: 999 minutes and 99 seconds.
pub const MAX_TIME: u16 = 60039;

/// ID3v1's notion of a four-digit year.
#[derive(Debug, Clone, Copy, PartialEq, Eq, Structural)]
pub struct Year {
    value: u16,
}

impl Year {
    /// The year.
    pub closed spec fn spec_value(&self) -> u16 {
        self.value
    }

    /// The year.
    pub fn value(&self) -> (r: u16)
        ensures
            r == self.spec_value(),
    {
        self.value
    }

    /// A year, if it is at most 9999.
    pub fn new(year: u16) -> (r: Option<Year>)
        ensures
            r is Some <==> year <= MAX_YEAR,
            r matches Some(y) ==> y.spec_value() == year,
    {
        if year > MAX_YEAR {
            None
        } else {
            Some(Year { value: year })
        }
    }

    /// The year zero.
    pub fn zero() -> (r: Year)
        ensures
            r.spec_value() == 0,
    {
        Year { value: 0 }
    }
}

/// An extended ID3v1 time, written `mmm:ss`, in seconds: at most 60039.
#[derive(Debug, Clone, Copy, PartialEq, Eq, Structural)]
pub struct Time {
    value: u16,
}

impl Time {
    /// The time in seconds.
    pub closed spec fn spec_seconds(&self) -> u16 {
        self.value
    }

    /// The time in seconds.
    pub fn seconds(&self) -> (r: u16)
        ensures
            r == self.spec_seconds(),
    {
        self.value
    }

    /// A time, if it is at most 60039 seconds.
    pub fn new(seconds: u16) -> (r: Option<Time>)
        ensures
            r is Some <==> seconds <= MAX_TIME,
            r matches Some(t) ==> t.spec_seconds() == seconds,
    {
        if seconds > MAX_TIME {
            None
        } else {
            Some(Time { value: seconds })
        }
    }

    /// The time zero.
    pub fn zero() -> (r: Time)
        ensures
            r.spec_seconds() == 0,
    {
        Time { value: 0 }
    }
}

/// Parsed ID3v1 tag metadata.
#[derive(Debug, Clone, PartialEq, Eq)]
pub struct Tag {
    /// The full title (ID3v1 and the extension if present).
    pub title: Vec<u8>,
    /// The full artist (ID3v1 and the extension if present).
    pub artist: Vec<u8>,
    /// The full album (ID3v1 and the extension if present).
    pub album: Vec<u8>,
    /// The year.
    pub year: Year,
    /// A free-form comment.
    pub comment: Vec<u8>,
    /// Number of the track, 0 if not set (ID3v1.1).
    pub track: u8,
    /// The genre number.
    pub genre: u8,
    /// 1 (slow) to 4 (fast), or 0 if not set (extended).
    pub speed: u8,
    /// Free-form genre (extended).
    pub genre_str: Vec<u8>,
    /// The start of the music, in seconds (extended).
    pub start_time: Time,
    /// The end of the music, in seconds (extended).
    pub end_time: Time,
}

/// The bytes without their trailing zero bytes.
pub open spec fn trim_zeros(s: Seq<u8>) -> Seq<u8>
    decreases s.len(),
{
    if s.len() > 0 && s.last() == 0 {
        trim_zeros(s.drop_last())
    } else {
        s
    }
}

/// Whether the bytes start with `TAG`.
pub open spec fn starts_tag(d: Seq<u8>) -> bool {
    d.len() >= 3 && d[0] == 0x54 && d[1] == 0x41 && d[2] == 0x47
}

/// Whether the bytes start with `TAG+`.
pub open spec fn starts_xtag(d: Seq<u8>) -> bool {
    starts_tag(d) && d.len() >= 4 && d[3] == 0x2B
}

/// Whether a byte is whitespace when read as a Latin-1 character.
pub open spec fn is_space(b: u8) -> bool {
    (0x09 <= b <= 0x0D) || b == 0x20 || b == 0x85 || b == 0xA0
}

/// The cap at which time parsing stops counting.
pub open spec fn time_cap() -> nat {
    1_000_000_000_000
}

/// The seconds of an `mmm:ss` text read from its right end: `state` 0 reads
/// seconds digits (x1, x10, ...), 1 reads minutes digits (x60, x3600, ...),
/// 2 accepts only leading whitespace. `i` bytes are left to read; anything
/// unexpected gives zero. Counting saturates at `time_cap()`.
pub open spec fn time_scan(s: Seq<u8>, i: nat, state: nat, mult: nat, secs: nat) -> nat
    decreases i,
{
    if i == 0 || i > s.len() {
        if secs > MAX_TIME { MAX_TIME as nat } else { secs }
    } else {
        let c = s[i - 1];
        let d = (c - 48) as nat;
        let next_secs = if secs + mult * d > time_cap() { time_cap() } else { secs + mult * d };
        if state == 0 {
            if 48 <= c <= 57 {
                time_scan(s, (i - 1) as nat, 0, if mult * 10 > time_cap() { time_cap() } else { mult * 10 }, next_secs)
            } else if c == 0x3A {
                time_scan(s, (i - 1) as nat, 1, 60, secs)
            } else {
                0
            }
        } else if state == 1 {
            if 48 <= c <= 57 {
                time_scan(s, (i - 1) as nat, 1, if mult * 60 > time_cap() { time_cap() } else { mult * 60 }, next_secs)
            } else if is_space(c) {
                time_scan(s, (i - 1) as nat, 2, mult, secs)
            } else {
                0
            }
        } else {
            if is_space(c) {
                time_scan(s, (i - 1) as nat, 2, mult, secs)
            } else {
                0
            }
        }
    }
}

/// The seconds that an extended ID3v1 time text stands for, at most 60039.
pub open spec fn time_spec(s: Seq<u8>) -> nat {
    time_scan(s, s.len(), 0, 1, 0)
}

/// Reads an `mmm:ss` time from right to left. Digits count seconds, a colon
/// switches to minutes, whitespace is allowed only before the minutes, and
/// anything else gives zero. The result is clamped to 60039 seconds.
pub fn parse_time(s: &[u8]) -> (r: Time)
    ensures
        r.spec_seconds() == time_spec(s@),
{
    let mut i: usize = s.len();
    let mut state: u8 = 0;
    let mut mult: u64 = 1;
    let mut secs: u64 = 0;
    let cap: u64 = 1_000_000_000_000;
    while i > 0
        invariant
            i <= s@.len(),
            state <= 2,
            mult <= cap,
            secs <= cap,
            cap == time_cap(),
            time_spec(s@) == time_scan(s@, i as nat, state as nat, mult as nat, secs as nat),
        decreases i,
    {
        let c = s[i - 1];
        let is_digit = 48 <= c && c <= 57;
        if state == 0 {
            if is_digit {
                let d = (c - 48) as u64;
                assert(mult * d <= 9_000_000_000_000) by (nonlinear_arith)
                    requires
                        mult <= 1_000_000_000_000,
                        d <= 9;
                secs = if secs + mult * d > cap { cap } else { secs + mult * d };
                mult = if mult * 10 > cap { cap } else { mult * 10 };
            } else if c == 0x3A {
                state = 1;
                mult = 60;
            } else {
                return Time { value: 0 };
            }
        } else if state == 1 {
            if is_digit {
                let d = (c - 48) as u64;
                assert(mult * d <= 9_000_000_000_000) by (nonlinear_arith)
                    requires
                        mult <= 1_000_000_000_000,
                        d <= 9;
                secs = if secs + mult * d > cap { cap } else { secs + mult * d };
                mult = if mult * 60 > cap { cap } else { mult * 60 };
            } else if (0x09 <= c && c <= 0x0D) || c == 0x20 || c == 0x85 || c == 0xA0 {
                state = 2;
            } else {
                return Time { value: 0 };
            }
        } else {
            if !((0x09 <= c && c <= 0x0D) || c == 0x20 || c == 0x85 || c == 0xA0) {
                return Time { value: 0 };
            }
        }
        i = i - 1;
    }
    if secs > MAX_TIME as u64 {
        Time { value: MAX_TIME }
    } else {
        Time { value: secs as u16 }
    }
}

/// The year that four bytes spell: ASCII digits read in decimal, or zero where
/// a byte is not a digit.
pub open spec fn year_spec(s: Seq<u8>) -> u16 {
    if s.len() == 4 && (forall|i: int| 0 <= i < 4 ==> 48 <= #[trigger] s[i] <= 57) {
        ((s[0] - 48) * 1000 + (s[1] - 48) * 100 + (s[2] - 48) * 10 + (s[3] - 48)) as u16
    } else {
        0
    }
}

/// Reads a four-digit year; anything else gives zero.
pub fn parse_year(s: &[u8]) -> (r: Year)
    ensures
        r.spec_value() == year_spec(s@),
{
    if s.len() != 4 {
        return Year { value: 0 };
    }
    let mut k: usize = 0;
    while k < 4
        invariant
            s@.len() == 4,
            k <= 4,
            forall|i: int| 0 <= i < k ==> 48 <= #[trigger] s@[i] <= 57,
        decreases 4 - k,
    {
        if s[k] < 48 || s[k] > 57 {
            return Year { value: 0 };
        }
        k = k + 1;
    }
    let v = ((s[0] - 48) as u16) * 1000 + ((s[1] - 48) as u16) * 100 + ((s[2] - 48) as u16) * 10 + ((s[3] - 48) as u16);
    Year { value: v }
}

/// Remove trailing zeros from bytes.
pub fn truncate_zeros(s: &[u8]) -> (r: &[u8])
    ensures
        r@ == trim_zeros(s@),
{
    let mut n = s.len();
    assert(s@.subrange(0, n as int) =~= s@);
    while n > 0 && s[n - 1] == 0
        invariant
            n <= s@.len(),
            trim_zeros(s@) == trim_zeros(s@.subrange(0, n as int)),
        decreases n,
    {
        assert(s@.subrange(0, n as int).drop_last() =~= s@.subrange(0, n - 1));
        n = n - 1;
    }
    assert(trim_zeros(s@.subrange(0, n as int)) == s@.subrange(0, n as int));
    vstd::slice::slice_subrange(s, 0, n)
}

/// The bytes of a range without their trailing zeros, as a vector.
fn field_text(data: &[u8], start: usize, end: usize) -> (r: Vec<u8>)
    requires
        start <= end <= data@.len(),
    ensures
        r@ == trim_zeros(data@.subrange(start as int, end as int)),
{
    let raw = copy_range(data, start, end);
    vstd::slice::slice_to_vec(truncate_zeros(raw.as_slice()))
}

/// Checks for the signature of an ID3v1 tag at the start of `data`.
pub fn probe_tag(data: &[u8]) -> (r: bool)
    ensures
        r == starts_tag(data@),
{
    data.len() >= 3 && data[0] == 0x54 && data[1] == 0x41 && data[2] == 0x47
}

/// Checks for the signature of an extended ID3v1 tag at the start of `data`.
pub fn probe_xtag(data: &[u8]) -> (r: bool)
    ensures
        r == starts_xtag(data@),
{
    probe_tag(data) && data.len() >= 4 && data[3] == 0x2B
}

impl Tag {
    /// Create a new ID3v1 tag with no information.
    pub fn new() -> (r: Tag)
        ensures
            r.title@.len() == 0 && r.artist@.len() == 0 && r.album@.len() == 0 && r.comment@.len() == 0,
            r.genre_str@.len() == 0,
            r.year.spec_value() == 0 && r.track == 0 && r.genre == 0 && r.speed == 0,
            r.start_time.spec_seconds() == 0 && r.end_time.spec_seconds() == 0,
    {
        Tag {
            title: Vec::new(),
            artist: Vec::new(),
            album: Vec::new(),
            year: Year::zero(),
            comment: Vec::new(),
            track: 0,
            genre: 0,
            speed: 0,
            genre_str: Vec::new(),
            start_time: Time::zero(),
            end_time: Time::zero(),
        }
    }

    /// Returns whether the tag holds information that only the extended tag
    /// can store.
    pub fn has_extended_data(&self) -> (r: bool)
        ensures
            r == (self.title@.len() > 30 || self.artist@.len() > 30 || self.album@.len() > 30 || self.speed > 0
                || self.genre_str@.len() > 0 || self.start_time.spec_seconds() > 0 || self.end_time.spec_seconds() > 0),
    {
        self.title.len() > 30 || self.artist.len() > 30 || self.album.len() > 30 || self.speed > 0
            || self.genre_str.len() > 0 || self.start_time.seconds() > 0 || self.end_time.seconds() > 0
    }
}

/// The byte at `i`, or zero past the end.
pub open spec fn byte_or_zero(s: Seq<u8>, i: int) -> u8 {
    if 0 <= i < s.len() { s[i] } else { 0 }
}

/// `len` bytes of `s` from `offset` on, zero-padded.
pub open spec fn padded(s: Seq<u8>, offset: int, len: nat) -> Seq<u8> {
    Seq::new(len, |i: int| byte_or_zero(s, offset + i))
}

fn write_padded(out: &mut Vec<u8>, data: &[u8], offset: usize, len: usize)
    requires
        offset <= 0x1000_0000,
        len <= 0x1000_0000,
    ensures
        final(out)@ == old(out)@ + padded(data@, offset as int, len as nat),
{
    let ghost start = old(out)@;
    let mut i: usize = 0;
    while i < len
        invariant
            i <= len <= 0x1000_0000,
            offset <= 0x1000_0000,
            out@ =~= start + padded(data@, offset as int, i as nat),
        decreases len - i,
    {
        let k = offset + i;
        let b = if k < data.len() { data[k] } else { 0 };
        out.push(b);
        i = i + 1;
        assert(out@ =~= start + padded(data@, offset as int, i as nat));
    }
}

/// The four ASCII digits of a number below 10000.
pub open spec fn four_digits(n: u16) -> Seq<u8> {
    seq![((n / 1000) % 10 + 48) as u8, ((n / 100) % 10 + 48) as u8, ((n / 10) % 10 + 48) as u8, (n % 10 + 48) as u8]
}

/// The `mmm:ss` text of a time.
pub open spec fn time_text(t: u16) -> Seq<u8> {
    let m = t / 60;
    let s = t % 60;
    seq![((m / 100) % 10 + 48) as u8, ((m / 10) % 10 + 48) as u8, (m % 10 + 48) as u8, 0x3Au8, ((s / 10) % 10 + 48) as u8, (s % 10 + 48) as u8]
}

/// The 128 bytes of an ID3v1 tag.
pub open spec fn tag_bytes(t: Tag, write_track_number: bool) -> Seq<u8> {
    seq![0x54u8, 0x41, 0x47] + padded(t.title@, 0, 30) + padded(t.artist@, 0, 30) + padded(t.album@, 0, 30)
        + four_digits(t.year.spec_value())
        + (if write_track_number { padded(t.comment@, 0, 28) + seq![0u8, t.track] } else { padded(t.comment@, 0, 30) })
        + seq![t.genre]
}

/// The 227 bytes of an extended ID3v1 tag.
pub open spec fn xtag_bytes(t: Tag) -> Seq<u8> {
    seq![0x54u8, 0x41, 0x47, 0x2B] + padded(t.title@, 30, 60) + padded(t.artist@, 30, 60) + padded(t.album@, 30, 60)
        + seq![t.speed] + padded(t.genre_str@, 0, 30) + time_text(t.start_time.spec_seconds())
        + time_text(t.end_time.spec_seconds())
}

impl Tag {
    /// The ID3v1 tag (128 bytes). With `write_track_number`, the comment is
    /// cut to 28 bytes and followed by a zero and the track number.
    pub fn write(&self, write_track_number: bool) -> (r: Vec<u8>)
        ensures
            r@ == tag_bytes(*self, write_track_number),
    {
        let mut out: Vec<u8> = vec![0x54, 0x41, 0x47];
        write_padded(&mut out, self.title.as_slice(), 0, 30);
        write_padded(&mut out, self.artist.as_slice(), 0, 30);
        write_padded(&mut out, self.album.as_slice(), 0, 30);
        let y = self.year.value();
        out.push(((y / 1000) % 10 + 48) as u8);
        out.push(((y / 100) % 10 + 48) as u8);
        out.push(((y / 10) % 10 + 48) as u8);
        out.push((y % 10 + 48) as u8);
        if write_track_number {
            write_padded(&mut out, self.comment.as_slice(), 0, 28);
            out.push(0);
            out.push(self.track);
        } else {
            write_padded(&mut out, self.comment.as_slice(), 0, 30);
        }
        out.push(self.genre);
        assert(out@ =~= tag_bytes(*self, write_track_number));
        out
    }

    /// The extended ID3v1 tag (227 bytes): the parts of title, artist and
    /// album past the 30 bytes that ID3v1 holds, then speed, genre and times.
    pub fn write_extended(&self) -> (r: Vec<u8>)
        ensures
            r@ == xtag_bytes(*self),
    {
        let mut out: Vec<u8> = vec![0x54, 0x41, 0x47, 0x2B];
        write_padded(&mut out, self.title.as_slice(), 30, 60);
        write_padded(&mut out, self.artist.as_slice(), 30, 60);
        write_padded(&mut out, self.album.as_slice(), 30, 60);
        out.push(self.speed);
        write_padded(&mut out, self.genre_str.as_slice(), 0, 30);
        push_time(&mut out, self.start_time.seconds());
        push_time(&mut out, self.end_time.seconds());
        assert(out@ =~= xtag_bytes(*self));
        out
    }
}

fn push_time(out: &mut Vec<u8>, t: u16)
    ensures
        final(out)@ == old(out)@ + time_text(t),
{
    let m = t / 60;
    let s = t % 60;
    out.push(((m / 100) % 10 + 48) as u8);
    out.push(((m / 10) % 10 + 48) as u8);
    out.push((m % 10 + 48) as u8);
    out.push(0x3A);
    out.push(((s / 10) % 10 + 48) as u8);
    out.push((s % 10 + 48) as u8);
    assert(final(out)@ =~= old(out)@ + time_text(t));
}

/// Whether `t` is the ID3v1 tag that 128 bytes starting with `TAG` hold.
pub open spec fn tag_read_as(d: Seq<u8>, t: Tag) -> bool {
    &&& t.title@ == trim_zeros(d.subrange(3, 33))
    &&& t.artist@ == trim_zeros(d.subrange(33, 63))
    &&& t.album@ == trim_zeros(d.subrange(63, 93))
    &&& t.year.spec_value() == year_spec(d.subrange(93, 97))
    &&& (d[125] == 0 ==> t.comment@ == trim_zeros(d.subrange(97, 125)) && t.track == d[126])
    &&& (d[125] != 0 ==> t.comment@ == trim_zeros(d.subrange(97, 127)) && t.track == 0)
    &&& t.genre == d[127]
    &&& t.speed == 0 && t.genre_str@.len() == 0
    &&& t.start_time.spec_seconds() == 0 && t.end_time.spec_seconds() == 0
}

/// Read an ID3v1 tag from the start of `data`, which should be the last 128
/// bytes of a file. Returns `None` where they do not start with `TAG`.
pub fn read_tag(data: &[u8]) -> (r: Result<Option<Tag>, Error>)
    ensures
        (r matches Ok(None)) <==> !starts_tag(data@),
        r is Err <==> (starts_tag(data@) && data@.len() < 128),
        r matches Err(e) ==> e.kind is InternalIoError,
        r matches Ok(Some(t)) ==> tag_read_as(data@, t),
{
    if !probe_tag(data) {
        return Ok(None);
    }
    if data.len() < 128 {
        return Err(unexpected_end());
    }
    let title = field_text(data, 3, 33);
    let artist = field_text(data, 33, 63);
    let album = field_text(data, 63, 93);
    let year = parse_year(vstd::slice::slice_subrange(data, 93, 97));
    let (comment, track) = if data[125] == 0 {
        (field_text(data, 97, 125), data[126])
    } else {
        (field_text(data, 97, 127), 0u8)
    };
    Ok(Some(Tag {
        title,
        artist,
        album,
        year,
        comment,
        track,
        genre: data[127],
        speed: 0,
        genre_str: Vec::new(),
        start_time: Time::zero(),
        end_time: Time::zero(),
    }))
}

/// Whether `t` is `before` with the extended tag in 227 bytes starting with
/// `TAG+` merged in.
pub open spec fn xtag_merged(d: Seq<u8>, before: Tag, t: Tag) -> bool {
    &&& t.title@ == trim_zeros(before.title@ + d.subrange(4, 64))
    &&& t.artist@ == trim_zeros(before.artist@ + d.subrange(64, 124))
    &&& t.album@ == trim_zeros(before.album@ + d.subrange(124, 184))
    &&& t.speed == d[184]
    &&& t.genre_str@ == trim_zeros(d.subrange(185, 215))
    &&& t.start_time.spec_seconds() == time_spec(d.subrange(215, 221))
    &&& t.end_time.spec_seconds() == time_spec(d.subrange(221, 227))
    &&& t.year == before.year && t.comment == before.comment && t.track == before.track && t.genre == before.genre
}

fn joined(a: &Vec<u8>, data: &[u8], start: usize, end: usize) -> (r: Vec<u8>)
    requires
        start <= end <= data@.len(),
    ensures
        r@ == trim_zeros(a@ + data@.subrange(start as int, end as int)),
{
    let mut v = vstd::slice::slice_to_vec(a.as_slice());
    let mut rest = copy_range(data, start, end);
    v.append(&mut rest);
    vstd::slice::slice_to_vec(truncate_zeros(v.as_slice()))
}

/// Read the extended part of an ID3v1 tag from the start of `data` (the 227
/// bytes that start 355 bytes from the end of a file) and merge it into `tag`.
/// Returns `false` and leaves the tag as it is where the bytes do not start
/// with `TAG+`.
pub fn read_xtag(data: &[u8], tag: &mut Tag) -> (r: Result<bool, Error>)
    ensures
        r matches Ok(false) <==> !starts_xtag(data@),
        r is Err <==> (starts_xtag(data@) && data@.len() < 227),
        !(r matches Ok(true)) ==> *final(tag) == *old(tag),
        r matches Ok(true) ==> xtag_merged(data@, *old(tag), *final(tag)),
{
    if !probe_xtag(data) {
        return Ok(false);
    }
    if data.len() < 227 {
        return Err(unexpected_end());
    }
    tag.title = joined(&tag.title, data, 4, 64);
    tag.artist = joined(&tag.artist, data, 64, 124);
    tag.album = joined(&tag.album, data, 124, 184);
    tag.speed = data[184];
    tag.genre_str = field_text(data, 185, 215);
    tag.start_time = parse_time(vstd::slice::slice_subrange(data, 215, 221));
    tag.end_time = parse_time(vstd::slice::slice_subrange(data, 221, 227));
    Ok(true)
}

/// Whether `t` is the ID3v1 tag that the end of `d` holds: the basic tag in
/// its last 128 bytes, merged with the extended tag in the 227 bytes before
/// them where those start with `TAG+`.
pub open spec fn v1_read_as(d: Seq<u8>, t: Tag) -> bool {
    let n = d.len() as int;
    let tail = d.subrange(n - 128, n);
    if n >= 355 && starts_xtag(d.subrange(n - 355, n - 128)) {
        exists|b: Tag| tag_read_as(tail, b) && xtag_merged(d.subrange(n - 355, n - 128), b, t)
    } else {
        tag_read_as(tail, t)
    }
}

/// Whether the last 128 bytes of `d` start with `TAG`.
pub open spec fn ends_with_tag(d: Seq<u8>) -> bool {
    d.len() >= 128 && starts_tag(d.subrange(d.len() - 128, d.len() as int))
}

/// Read an ID3v1 tag and any extended tag data from `data`, the last 355 bytes
/// of a file (or fewer, when the file is shorter): the extended tag, if any,
/// starts 355 bytes before its end and the ID3v1 tag 128 bytes before its end.
pub fn read(data: &[u8]) -> (r: Result<Option<Tag>, Error>)
    ensures
        r is Err <==> data@.len() < 128,
        r matches Err(e) ==> e.kind is InternalIoError,
        r matches Ok(o) ==> (o is Some <==> ends_with_tag(data@)),
        r matches Ok(Some(t)) ==> v1_read_as(data@, t),
{
    let n = data.len();
    if n < 128 {
        return Err(unexpected_end());
    }
    let tail = vstd::slice::slice_subrange(data, n - 128, n);
    match read_tag(tail) {
        Ok(Some(mut tag)) => {
            if n >= 355 {
                let head = vstd::slice::slice_subrange(data, n - 355, n - 128);
                let ghost before = tag;
                match read_xtag(head, &mut tag) {
                    Ok(_) => {},
                    Err(e) => {
                        return Err(e);
                    },
                }
                assert(v1_read_as(data@, tag)) by {
                    if starts_xtag(head@) {
                        assert(tag_read_as(tail@, before) && xtag_merged(head@, before, tag));
                    }
                }
            }
            Ok(Some(tag))
        },
        Ok(None) => Ok(None),
        Err(e) => Err(e),
    }
}

} // verus!
