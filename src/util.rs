//! Byte-level codecs used by the ID3 formats: synchsafe integers, big-endian
//! integers, unsynchronization and delimiters.
use vstd::prelude::*;
use crate::encoding::Encoding;
pub use crate::text::{encode_string, string_from_encoding, string_from_utf8, string_from_utf16, string_from_utf16le, string_from_utf16be, string_to_utf16, string_to_utf16be, string_to_utf16le};

verus! {

/// The synchsafe form of `n`: its low 28 bits spread over four 7-bit groups,
/// one per byte, with each byte's high bit clear.
pub open spec fn synchsafe_spec(n: u32) -> u32 {
    (n & 0x7F) | (((n >> 7) & 0x7F) << 8) | (((n >> 14) & 0x7F) << 16) | (((n >> 21) & 0x7F) << 24)
}

/// The value carried by a synchsafe integer: the low 7 bits of each of its bytes.
pub open spec fn unsynchsafe_spec(n: u32) -> u32 {
    (n & 0x7F) | (((n >> 8) & 0x7F) << 7) | (((n >> 16) & 0x7F) << 14) | (((n >> 24) & 0x7F) << 21)
}

/// Returns the synchsafe variant of a `u32` value.
pub fn synchsafe(n: u32) -> (r: u32)
    ensures
        r == synchsafe_spec(n),
{
    (n & 0x7F) | (((n >> 7) & 0x7F) << 8) | (((n >> 14) & 0x7F) << 16) | (((n >> 21) & 0x7F) << 24)
}

/// Returns the unsynchsafe variant of a `u32` value.
pub fn unsynchsafe(n: u32) -> (r: u32)
    ensures
        r == unsynchsafe_spec(n),
        r < 0x1000_0000,
{
    let r = (n & 0x7F) | (((n >> 8) & 0x7F) << 7) | (((n >> 16) & 0x7F) << 14) | (((n >> 24) & 0x7F) << 21);
    assert(((n & 0x7F) | (((n >> 8) & 0x7F) << 7) | (((n >> 16) & 0x7F) << 14) | (((n >> 24) & 0x7F) << 21)) < 0x1000_0000u32) by (bit_vector);
    r
}

/// Every value below 2^28 survives the synchsafe encoding: decoding the encoded
/// form gives the value back.
pub proof fn lemma_synchsafe_round_trip(n: u32)
    requires
        n < 0x1000_0000,
    ensures
        unsynchsafe_spec(synchsafe_spec(n)) == n,
{
    assert(((n & 0x7F) | (((n >> 7) & 0x7F) << 8) | (((n >> 14) & 0x7F) << 16) | (((n >> 21) & 0x7F) << 24)) & 0x7F == n & 0x7F
        && (((((n & 0x7F) | (((n >> 7) & 0x7F) << 8) | (((n >> 14) & 0x7F) << 16) | (((n >> 21) & 0x7F) << 24)) >> 8) & 0x7F) << 7) == ((n >> 7) & 0x7F) << 7
        && (((((n & 0x7F) | (((n >> 7) & 0x7F) << 8) | (((n >> 14) & 0x7F) << 16) | (((n >> 21) & 0x7F) << 24)) >> 16) & 0x7F) << 14) == ((n >> 14) & 0x7F) << 14
        && (((((n & 0x7F) | (((n >> 7) & 0x7F) << 8) | (((n >> 14) & 0x7F) << 16) | (((n >> 21) & 0x7F) << 24)) >> 24) & 0x7F) << 21) == ((n >> 21) & 0x7F) << 21
        && ((n & 0x7F) | (((n >> 7) & 0x7F) << 7) | (((n >> 14) & 0x7F) << 14) | (((n >> 21) & 0x7F) << 21)) == n)
        by (bit_vector)
        requires n < 0x1000_0000u32;
}

/// The four big-endian bytes of `n`.
pub open spec fn be_bytes_spec(n: u32) -> Seq<u8> {
    seq![(n >> 24) as u8, ((n >> 16) & 0xFF) as u8, ((n >> 8) & 0xFF) as u8, (n & 0xFF) as u8]
}

/// The value of two big-endian bytes.
pub open spec fn be_u16_spec(b0: u8, b1: u8) -> u16 {
    ((b0 as u16) << 8 | b1 as u16) as u16
}

/// The value of four big-endian bytes.
pub open spec fn be_u32_spec(b0: u8, b1: u8, b2: u8, b3: u8) -> u32 {
    ((b0 as u32) << 24 | (b1 as u32) << 16 | (b2 as u32) << 8 | b3 as u32) as u32
}

/// Returns an array representation of a `u32` value.
pub fn u32_to_bytes(n: u32) -> (r: [u8; 4])
    ensures
        r@ == be_bytes_spec(n),
{
    let r = [(n >> 24) as u8, ((n >> 16) & 0xFF) as u8, ((n >> 8) & 0xFF) as u8, (n & 0xFF) as u8];
    assert(r@ =~= be_bytes_spec(n));
    r
}

/// Reading four big-endian bytes gives back the number they were written from.
pub proof fn lemma_be32(n: u32)
    ensures
        be_u32_spec(be_bytes_spec(n)[0], be_bytes_spec(n)[1], be_bytes_spec(n)[2], be_bytes_spec(n)[3]) == n,
{
    let b = be_bytes_spec(n);
    assert(b[0] == (n >> 24) as u8 && b[1] == ((n >> 16) & 0xFF) as u8 && b[2] == ((n >> 8) & 0xFF) as u8 && b[3] == (n & 0xFF) as u8);
    assert((((n >> 24) as u8 as u32) << 24 | (((n >> 16) & 0xFF) as u8 as u32) << 16 | (((n >> 8) & 0xFF) as u8 as u32) << 8 | ((n & 0xFF) as u8 as u32)) as u32 == n) by (bit_vector);
}

/// Reads a big-endian `u16` from the first two bytes of `data`, if there are two.
pub fn read_be_u16(data: &[u8]) -> (r: Option<u16>)
    ensures
        data@.len() < 2 ==> r is None,
        data@.len() >= 2 ==> r == Some(be_u16_spec(data@[0], data@[1])),
{
    if data.len() < 2 {
        None
    } else {
        Some(((data[0] as u16) << 8 | data[1] as u16) as u16)
    }
}

/// Reads a big-endian `u32` from the first four bytes of `data`, if there are four.
pub fn read_be_u32(data: &[u8]) -> (r: Option<u32>)
    ensures
        data@.len() < 4 ==> r is None,
        data@.len() >= 4 ==> r == Some(be_u32_spec(data@[0], data@[1], data@[2], data@[3])),
{
    if data.len() < 4 {
        None
    } else {
        Some(((data[0] as u32) << 24 | (data[1] as u32) << 16 | (data[2] as u32) << 8 | data[3] as u32) as u32)
    }
}

/// The length of the string delimiter of an encoding: two zero bytes for the
/// UTF-16 forms, one for the others.
pub open spec fn delim_len_spec(e: Encoding) -> nat {
    match e {
        Encoding::Latin1 | Encoding::UTF8 => 1,
        Encoding::UTF16 | Encoding::UTF16BE => 2,
    }
}

/// Get string-terminating delimiter for the specified text encoding.
pub fn delim(encoding: Encoding) -> (r: Vec<u8>)
    ensures
        r@ == Seq::new(delim_len_spec(encoding), |i: int| 0u8),
{
    let r = match encoding {
        Encoding::Latin1 | Encoding::UTF8 => vec![0u8],
        Encoding::UTF16 | Encoding::UTF16BE => vec![0u8, 0u8],
    };
    assert(r@ =~= Seq::new(delim_len_spec(encoding), |i: int| 0u8));
    r
}

/// Get the length of the delimiter for the specified text encoding.
pub fn delim_len(encoding: Encoding) -> (r: usize)
    ensures
        r == delim_len_spec(encoding),
{
    match encoding {
        Encoding::Latin1 | Encoding::UTF8 => 1,
        Encoding::UTF16 | Encoding::UTF16BE => 2,
    }
}

/// Whether a byte that follows 0xFF needs a zero inserted before it.
pub open spec fn needs_guard(b: u8) -> bool {
    b == 0 || b >= 0xE0
}

/// The unsynchronized form of a byte sequence: a zero byte follows every 0xFF
/// that is followed by 0x00, by a byte 0xE0..=0xFF, or by the end of the data.
pub open spec fn unsync_spec(s: Seq<u8>) -> Seq<u8>
    decreases s.len(),
{
    if s.len() == 0 {
        seq![]
    } else if s[0] == 0xFF && (s.len() == 1 || needs_guard(s[1])) {
        seq![0xFFu8, 0u8] + unsync_spec(s.drop_first())
    } else {
        seq![s[0]] + unsync_spec(s.drop_first())
    }
}

/// The resynchronized form of a byte sequence, given whether the byte before it
/// was 0xFF: every 0x00 that directly follows an 0xFF is dropped.
pub open spec fn resync_from(s: Seq<u8>, prev_ff: bool) -> Seq<u8>
    decreases s.len(),
{
    if s.len() == 0 {
        seq![]
    } else if prev_ff && s[0] == 0 {
        resync_from(s.drop_first(), false)
    } else {
        seq![s[0]] + resync_from(s.drop_first(), s[0] == 0xFF)
    }
}

/// The resynchronized form of a byte sequence.
pub open spec fn resync_spec(s: Seq<u8>) -> Seq<u8> {
    resync_from(s, false)
}

/// Applies unsynchronization to a byte sequence.
pub fn unsynchronize(data: &[u8]) -> (r: Vec<u8>)
    ensures
        r@ == unsync_spec(data@),
{
    let n = data.len();
    let mut out: Vec<u8> = Vec::new();
    let mut i: usize = 0;
    assert(data@.subrange(0, n as int) =~= data@);
    assert(out@ + unsync_spec(data@) =~= unsync_spec(data@));
    while i < n
        invariant
            n == data@.len(),
            i <= n,
            unsync_spec(data@) == out@ + unsync_spec(data@.subrange(i as int, n as int)),
        decreases n - i,
    {
        let ghost rest = data@.subrange(i as int, n as int);
        assert(rest.drop_first() =~= data@.subrange(i + 1, n as int));
        let b = data[i];
        out.push(b);
        if b == 0xFF && (i + 1 == n || data[i + 1] == 0 || data[i + 1] >= 0xE0) {
            out.push(0);
        }
        i = i + 1;
        proof {
            assert(rest[0] == b);
            if b == 0xFF && (rest.len() == 1 || needs_guard(rest[1])) {
                assert(unsync_spec(rest) == seq![0xFFu8, 0u8] + unsync_spec(rest.drop_first()));
            } else {
                assert(unsync_spec(rest) == seq![b] + unsync_spec(rest.drop_first()));
            }
        }
        assert(unsync_spec(data@) =~= out@ + unsync_spec(data@.subrange(i as int, n as int)));
    }
    assert(data@.subrange(n as int, n as int) =~= Seq::<u8>::empty());
    assert(out@ =~= out@ + unsync_spec(Seq::<u8>::empty()));
    out
}

/// Reverses unsynchronization: drops every zero byte that directly follows 0xFF.
pub fn resynchronize(data: &[u8]) -> (r: Vec<u8>)
    ensures
        r@ == resync_spec(data@),
{
    let n = data.len();
    let mut out: Vec<u8> = Vec::new();
    let mut i: usize = 0;
    let mut prev_ff = false;
    assert(data@.subrange(0, n as int) =~= data@);
    assert(out@ + resync_spec(data@) =~= resync_spec(data@));
    while i < n
        invariant
            n == data@.len(),
            i <= n,
            resync_spec(data@) == out@ + resync_from(data@.subrange(i as int, n as int), prev_ff),
        decreases n - i,
    {
        let ghost rest = data@.subrange(i as int, n as int);
        let ghost old_prev = prev_ff;
        assert(rest.drop_first() =~= data@.subrange(i + 1, n as int));
        let b = data[i];
        if prev_ff && b == 0 {
            prev_ff = false;
        } else {
            out.push(b);
            prev_ff = b == 0xFF;
        }
        i = i + 1;
        proof {
            assert(rest[0] == b);
            if old_prev && b == 0 {
                assert(resync_from(rest, old_prev) == resync_from(rest.drop_first(), false));
            } else {
                assert(resync_from(rest, old_prev) == seq![b] + resync_from(rest.drop_first(), b == 0xFF));
            }
        }
        assert(resync_spec(data@) =~= out@ + resync_from(data@.subrange(i as int, n as int), prev_ff));
    }
    assert(data@.subrange(n as int, n as int) =~= Seq::<u8>::empty());
    assert(out@ =~= out@ + resync_from(Seq::<u8>::empty(), prev_ff));
    out
}

proof fn lemma_resync_unsync(s: Seq<u8>, p: bool)
    requires
        p ==> (s.len() == 0 || s[0] != 0),
    ensures
        resync_from(unsync_spec(s), p) == s,
    decreases s.len(),
{
    if s.len() == 0 {
        assert(unsync_spec(s) =~= Seq::<u8>::empty());
    } else {
        let rest = s.drop_first();
        lemma_resync_unsync(rest, false);
        if s[0] == 0xFF && (s.len() == 1 || needs_guard(s[1])) {
            let u = seq![0xFFu8, 0u8] + unsync_spec(rest);
            assert(u[0] == 0xFF);
            assert(u.drop_first()[0] == 0);
            assert(u.drop_first().drop_first() =~= unsync_spec(rest));
            assert(resync_from(u, p) == seq![0xFFu8] + resync_from(u.drop_first(), true));
            assert(resync_from(u.drop_first(), true) == resync_from(unsync_spec(rest), false));
            assert(s =~= seq![0xFFu8] + rest);
        } else {
            let u = seq![s[0]] + unsync_spec(rest);
            assert(u.drop_first() =~= unsync_spec(rest));
            if s[0] == 0xFF {
                assert(rest.len() > 0 && rest[0] != 0);
                lemma_resync_unsync(rest, true);
            }
            assert(resync_from(u, p) == seq![s[0]] + resync_from(unsync_spec(rest), s[0] == 0xFF));
            assert(s =~= seq![s[0]] + rest);
        }
    }
}

/// Resynchronization undoes unsynchronization, on every byte sequence.
pub proof fn lemma_resynchronize_inverts(b: Seq<u8>)
    ensures
        resync_spec(unsync_spec(b)) == b,
{
    lemma_resync_unsync(b, false);
}

/// On every sequence that unsynchronization can produce, unsynchronizing its
/// resynchronized form gives it back.
pub proof fn lemma_unsynchronize_inverts(b: Seq<u8>, raw: Seq<u8>)
    requires
        b == unsync_spec(raw),
    ensures
        unsync_spec(resync_spec(b)) == b,
{
    lemma_resync_unsync(raw, false);
}

/// Resynchronization never lengthens the data.
pub proof fn lemma_resync_len(s: Seq<u8>, p: bool)
    ensures
        resync_from(s, p).len() <= s.len(),
    decreases s.len(),
{
    if s.len() > 0 {
        lemma_resync_len(s.drop_first(), false);
        lemma_resync_len(s.drop_first(), s[0] == 0xFF);
    }
}

/// The bytes of `data` from `start` up to `end`.
pub fn copy_range(data: &[u8], start: usize, end: usize) -> (r: Vec<u8>)
    requires
        start <= end <= data@.len(),
    ensures
        r@ == data@.subrange(start as int, end as int),
{
    let mut out: Vec<u8> = Vec::new();
    let mut i: usize = start;
    while i < end
        invariant
            start <= i <= end <= data@.len(),
            out@ =~= data@.subrange(start as int, i as int),
        decreases end - i,
    {
        out.push(data[i]);
        i = i + 1;
        assert(out@ =~= data@.subrange(start as int, i as int));
    }
    out
}

} // verus!
