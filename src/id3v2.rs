//! ID3v2 tags: the header and its flags, the extended header, the frame list,
//! and the tag codec.
use vstd::prelude::*;
use crate::version::{Version, Id, id_version, version_number, same_id};
use crate::frame::{Frame, FrameValue, frame_read_as, lemma_frame_read_unique, frame_fits, frame_bytes, frame_text_spec, text_frame_fields, no_flags, convert_frame_spec};
use crate::encoding::Encoding;
use crate::error::{Error, ErrorKind, unexpected_end};
use crate::util::{lemma_be32, lemma_synchsafe_round_trip, synchsafe, unsynchsafe, synchsafe_spec, unsynchsafe_spec, be_u32_spec, be_bytes_spec, u32_to_bytes, unsync_spec, resync_spec, unsynchronize, resynchronize, copy_range};

verus! {

/// Flags of the ID3v2 tag header.
#[derive(Debug, Clone, Copy, PartialEq, Eq, Structural)]
pub enum TagFlag {
    /// Unsynchronization is applied to the tag (all versions).
    Unsynchronization,
    /// An extended header follows the header (ID3v2.3/4).
    ExtendedHeader,
    /// The tag is experimental (ID3v2.3/4).
    Experimental,
    /// A footer follows the tag (ID3v2.4).
    Footer,
    /// The tag is compressed (ID3v2.2 only).
    Compression,
}

/// The bit of the header flag byte that stands for a flag.
pub open spec fn flag_value(f: TagFlag) -> u8 {
    match f {
        TagFlag::Unsynchronization => 0x80,
        TagFlag::ExtendedHeader => 0x40,
        TagFlag::Experimental => 0x20,
        TagFlag::Footer => 0x10,
        TagFlag::Compression => 0x40,
    }
}

/// Whether a version knows a header flag.
pub open spec fn flag_supported(v: Version, f: TagFlag) -> bool {
    match f {
        TagFlag::Unsynchronization => true,
        TagFlag::ExtendedHeader | TagFlag::Experimental => v != Version::V2,
        TagFlag::Footer => v == Version::V4,
        TagFlag::Compression => v == Version::V2,
    }
}

impl TagFlag {
    /// Returns the value of a byte in which only this flag is set.
    pub fn value(&self) -> (r: u8)
        ensures
            r == flag_value(*self),
    {
        match self {
            TagFlag::Unsynchronization => 0x80,
            TagFlag::ExtendedHeader => 0x40,
            TagFlag::Experimental => 0x20,
            TagFlag::Footer => 0x10,
            TagFlag::Compression => 0x40,
        }
    }
}

/// The flags set in an ID3v2 header.
#[derive(Debug, Clone, Copy, PartialEq, Eq, Structural)]
pub struct TagFlags {
    /// The flag byte as it stands in the header.
    pub byte: u8,
    /// The version whose flag layout applies.
    pub version: Version,
}

/// Whether a flag is set in a flag byte under a version.
pub open spec fn flag_get(t: TagFlags, f: TagFlag) -> bool {
    flag_supported(t.version, f) && t.byte & flag_value(f) != 0
}

impl TagFlags {
    /// Create a new `TagFlags` with all flags set to false.
    pub fn new(version: Version) -> (r: TagFlags)
        ensures
            r.byte == 0,
            r.version == version,
    {
        TagFlags { byte: 0, version }
    }

    /// Create a new `TagFlags` using the provided byte.
    pub fn from_byte(byte: u8, version: Version) -> (r: TagFlags)
        ensures
            r.byte == byte,
            r.version == version,
    {
        TagFlags { byte, version }
    }

    /// Whether the version knows the flag.
    fn supported(&self, which: TagFlag) -> (r: bool)
        ensures
            r == flag_supported(self.version, which),
    {
        match which {
            TagFlag::Unsynchronization => true,
            TagFlag::ExtendedHeader | TagFlag::Experimental => self.version != Version::V2,
            TagFlag::Footer => self.version == Version::V4,
            TagFlag::Compression => self.version == Version::V2,
        }
    }

    /// Get the state of a flag: set, and known to the version.
    pub fn get(&self, which: TagFlag) -> (r: bool)
        ensures
            r == flag_get(*self, which),
    {
        self.supported(which) && self.byte & which.value() != 0
    }

    /// Set a flag to the given value. A flag that the version does not know is
    /// left as it is.
    pub fn set(&mut self, which: TagFlag, val: bool)
        ensures
            final(self).version == old(self).version,
            !flag_supported(old(self).version, which) ==> final(self).byte == old(self).byte,
            flag_supported(old(self).version, which) && val ==> final(self).byte == old(self).byte | flag_value(which),
            flag_supported(old(self).version, which) && !val ==> final(self).byte == old(self).byte & !flag_value(which),
    {
        if self.supported(which) {
            if val {
                self.byte = self.byte | which.value();
            } else {
                self.byte = self.byte & !which.value();
            }
        }
    }

    /// Create a byte representation of the flags suitable for writing to an ID3 tag.
    pub fn to_byte(&self) -> (r: u8)
        ensures
            r == self.byte,
    {
        self.byte
    }
}

/// A flag of an ID3v2 extended header.
#[derive(Debug, Clone, Copy, PartialEq, Eq, Structural)]
pub enum ExtendedFlag {
    /// The tag updates an earlier one (ID3v2.4); no payload.
    Update,
    /// A CRC-32 of the frame data follows (ID3v2.3/4).
    Crc,
    /// A byte of tag restrictions follows (ID3v2.4).
    TagRestrictions,
    /// A flag this library does not know, by its bit index.
    Unknown(u8),
}

/// The bit index of an extended header flag, counting from the MSB of the
/// first flag byte.
pub open spec fn flag_index_spec(f: ExtendedFlag, v: Version) -> u8 {
    match (v, f) {
        (Version::V3, ExtendedFlag::Crc) => 0,
        (Version::V4, ExtendedFlag::Update) => 1,
        (Version::V4, ExtendedFlag::Crc) => 2,
        (Version::V4, ExtendedFlag::TagRestrictions) => 3,
        (_, ExtendedFlag::Unknown(n)) => n,
        _ => 0,
    }
}

/// The extended header flag that a bit index stands for.
pub open spec fn flag_of_index(n: u8, v: Version) -> ExtendedFlag {
    if v == Version::V3 && n == 0 {
        ExtendedFlag::Crc
    } else if v == Version::V4 && n == 1 {
        ExtendedFlag::Update
    } else if v == Version::V4 && n == 2 {
        ExtendedFlag::Crc
    } else if v == Version::V4 && n == 3 {
        ExtendedFlag::TagRestrictions
    } else {
        ExtendedFlag::Unknown(n)
    }
}

/// Whether a version has an extended header flag.
pub open spec fn flag_in_version(f: ExtendedFlag, v: Version) -> bool {
    match (v, f) {
        (Version::V3, ExtendedFlag::Crc) => true,
        (Version::V4, ExtendedFlag::Update) => true,
        (Version::V4, ExtendedFlag::Crc) => true,
        (Version::V4, ExtendedFlag::TagRestrictions) => true,
        (Version::V3, ExtendedFlag::Unknown(_)) => true,
        (Version::V4, ExtendedFlag::Unknown(_)) => true,
        _ => false,
    }
}

impl ExtendedFlag {
    /// Find the index of an extended header flag in a tag of the given version,
    /// counting from 0 at the first byte's MSB.
    pub fn to_index(&self, version: Version) -> (r: u8)
        requires
            flag_in_version(*self, version),
        ensures
            r == flag_index_spec(*self, version),
    {
        match (version, self) {
            (Version::V3, ExtendedFlag::Crc) => 0,
            (Version::V4, ExtendedFlag::Update) => 1,
            (Version::V4, ExtendedFlag::Crc) => 2,
            (Version::V4, ExtendedFlag::TagRestrictions) => 3,
            (_, ExtendedFlag::Unknown(n)) => *n,
            _ => 0,
        }
    }

    /// Obtain the meaning of an extended header flag from the index of its bit
    /// in the flag bytes, counting from 0 at the first byte's MSB.
    pub fn from_index(n: u8, version: Version) -> (r: ExtendedFlag)
        requires
            version != Version::V2,
        ensures
            r == flag_of_index(n, version),
            flag_in_version(r, version),
    {
        if version == Version::V3 && n == 0 {
            ExtendedFlag::Crc
        } else if version == Version::V4 && n == 1 {
            ExtendedFlag::Update
        } else if version == Version::V4 && n == 2 {
            ExtendedFlag::Crc
        } else if version == Version::V4 && n == 3 {
            ExtendedFlag::TagRestrictions
        } else {
            ExtendedFlag::Unknown(n)
        }
    }
}

/// An ID3v2 extended header: a sequence of flags with their payloads.
#[derive(Debug, Clone, PartialEq, Eq)]
pub struct ExtendedHeader {
    /// Each flag that is set, with its payload.
    pub flag_data: Vec<(ExtendedFlag, Vec<u8>)>,
}

/// The payload of the first entry of flag `f` whose payload fits a length
/// byte, if any.
pub open spec fn first_payload(es: Seq<(ExtendedFlag, Seq<u8>)>, f: ExtendedFlag) -> Option<Seq<u8>>
    decreases es.len(),
{
    if es.len() == 0 {
        None
    } else if es[0].0 == f && es[0].1.len() < 256 {
        Some(es[0].1)
    } else {
        first_payload(es.drop_first(), f)
    }
}

/// The entry of flag `f` that is written, as a sequence of at most one entry.
pub open spec fn entry_of(es: Seq<(ExtendedFlag, Seq<u8>)>, f: ExtendedFlag) -> Seq<(ExtendedFlag, Seq<u8>)> {
    opt_entry(first_payload(es, f), f)
}

/// The bytes written for the entry of flag `f`: its length, then its payload.
pub open spec fn entry_bytes(es: Seq<(ExtendedFlag, Seq<u8>)>, f: ExtendedFlag) -> Seq<u8> {
    opt_bytes(first_payload(es, f))
}

/// The entries that an extended header is written with, in flag-bit order.
/// ID3v2.4: for each known flag, the first entry of that flag whose payload
/// fits a length byte; unknown flags are dropped. ID3v2.3: the first CRC
/// entry, where its payload has the four bytes of a CRC.
pub open spec fn kept_entries(es: Seq<(ExtendedFlag, Seq<u8>)>, v: Version) -> Seq<(ExtendedFlag, Seq<u8>)> {
    if v == Version::V4 {
        entry_of(es, ExtendedFlag::Update) + entry_of(es, ExtendedFlag::Crc) + entry_of(es, ExtendedFlag::TagRestrictions)
    } else {
        match first_payload(es, ExtendedFlag::Crc) {
            Some(c) => if c.len() == 4 { seq![(ExtendedFlag::Crc, c)] } else { seq![] },
            None => seq![],
        }
    }
}

/// The payload bytes of an ID3v2.4 extended header, in flag-bit order.
pub open spec fn v4_payloads(es: Seq<(ExtendedFlag, Seq<u8>)>) -> Seq<u8> {
    entry_bytes(es, ExtendedFlag::Update) + entry_bytes(es, ExtendedFlag::Crc) + entry_bytes(es, ExtendedFlag::TagRestrictions)
}

/// The flag byte of an ID3v2.4 extended header: Update is bit 1, CRC bit 2 and
/// tag restrictions bit 3, counted from the most significant bit.
pub open spec fn v4_flag_byte(es: Seq<(ExtendedFlag, Seq<u8>)>) -> u8 {
    (opt_bit(first_payload(es, ExtendedFlag::Update), 0x40) | opt_bit(first_payload(es, ExtendedFlag::Crc), 0x20)
        | opt_bit(first_payload(es, ExtendedFlag::TagRestrictions), 0x10)) as u8
}

/// The contents of an extended header's entries.
pub open spec fn entries_view(es: Seq<(ExtendedFlag, Vec<u8>)>) -> Seq<(ExtendedFlag, Seq<u8>)> {
    Seq::new(es.len(), |i: int| (es[i].0, es[i].1@))
}

/// The bytes an extended header is written as. ID3v2.4: synchsafe total size,
/// one flag byte count, the flag byte, then the payloads in flag-bit order,
/// each after its length. ID3v2.3: size after the size field, two flag bytes
/// with the CRC bit, four bytes of padding size, then the CRC.
pub open spec fn ext_bytes(es: Seq<(ExtendedFlag, Seq<u8>)>, v: Version) -> Seq<u8> {
    if v == Version::V4 {
        be_bytes_spec(synchsafe_spec((6 + v4_payloads(es).len()) as u32)) + seq![1u8, v4_flag_byte(es)] + v4_payloads(es)
    } else {
        if kept_entries(es, v).len() == 0 {
            be_bytes_spec(6) + seq![0u8, 0, 0, 0, 0, 0]
        } else {
            be_bytes_spec(10) + seq![0x80u8, 0, 0, 0, 0, 0] + kept_entries(es, v)[0].1
        }
    }
}

/// The entries of an ID3v2.4 extended header of `size` bytes with `nbytes`
/// flag bytes (at index 5 on), read from flag bit `b` on (bits counted from the
/// most significant bit of the first flag byte) with payloads from `pos` on:
/// each set bit gives the flag of its index and the payload after its length
/// byte. `None` where a payload runs past the header.
pub open spec fn v4_entries(data: Seq<u8>, size: nat, nbytes: nat, b: nat, pos: nat) -> Option<Seq<(ExtendedFlag, Seq<u8>)>>
    decreases nbytes * 8 - b,
{
    if b >= nbytes * 8 {
        Some(seq![])
    } else {
        let byte = data[5 + b as int / 8];
        if (byte >> (7 - (b % 8)) as u8) & 1 == 1 {
            if pos >= size {
                None
            } else {
                let dlen = data[pos as int] as nat;
                if dlen > size - pos - 1 {
                    None
                } else {
                    let idx: u8 = if b < 256 { b as u8 } else { 255 };
                    match v4_entries(data, size, nbytes, b + 1, pos + 1 + dlen) {
                        Some(rest) => Some(seq![(flag_of_index(idx, Version::V4), data.subrange(pos as int + 1, pos as int + 1 + dlen))] + rest),
                        None => None,
                    }
                }
            }
        } else {
            v4_entries(data, size, nbytes, b + 1, pos)
        }
    }
}

/// The entries of the extended header at the start of `data` and its length,
/// or `None` where it is malformed.
pub open spec fn ext_header_spec(data: Seq<u8>, v: Version) -> Option<(Seq<(ExtendedFlag, Seq<u8>)>, nat)> {
    if data.len() < 6 {
        None
    } else {
        let raw = be_u32_spec(data[0], data[1], data[2], data[3]);
        if v == Version::V4 {
            let size = unsynchsafe_spec(raw) as nat;
            let n = data[4] as nat;
            if size > data.len() || size < 6 || n > size - 5 {
                None
            } else {
                match v4_entries(data, size, n, 0, 5 + n) {
                    Some(es) => Some((es, size)),
                    None => None,
                }
            }
        } else if raw > 0x7FFF_FFFF || raw > data.len() - 4 || raw < 6 {
            None
        } else if data[4] & 0x80 != 0 {
            if raw + 4 < 14 {
                None
            } else {
                Some((seq![(ExtendedFlag::Crc, data.subrange(10, 14))], (raw + 4) as nat))
            }
        } else {
            Some((seq![], (raw + 4) as nat))
        }
    }
}

impl ExtendedHeader {
    /// Return the size in bytes of the serialized extended header.
    pub fn size(&self, version: Version) -> (r: usize)
        requires
            version != Version::V2,
        ensures
            r == ext_bytes(entries_view(self.flag_data@), version).len(),
    {
        let b = self.write_to(version);
        b.len()
    }

    /// The payload of the first entry of flag `f` whose payload fits a length byte.
    fn find_payload(&self, f: ExtendedFlag) -> (r: Option<&Vec<u8>>)
        ensures
            r matches Some(p) ==> first_payload(entries_view(self.flag_data@), f) == Some(p@),
            r is None ==> first_payload(entries_view(self.flag_data@), f) is None,
            r matches Some(p) ==> p@.len() < 256,
    {
        let ghost es = entries_view(self.flag_data@);
        let n = self.flag_data.len();
        let mut i: usize = 0;
        assert(es.subrange(0, n as int) =~= es);
        while i < n
            invariant
                n == self.flag_data@.len(),
                es == entries_view(self.flag_data@),
                i <= n,
                first_payload(es, f) == first_payload(es.subrange(i as int, n as int), f),
            decreases n - i,
        {
            let ghost rest = es.subrange(i as int, n as int);
            assert(rest.drop_first() =~= es.subrange(i + 1, n as int));
            let entry = &self.flag_data[i];
            if entry.0 == f && entry.1.len() < 256 {
                return Some(&entry.1);
            }
            i = i + 1;
        }
        assert(es.subrange(n as int, n as int) =~= Seq::<(ExtendedFlag, Seq<u8>)>::empty());
        None
    }

    /// Serializes the extended header for a tag of the given version. Entries
    /// of unknown flags, entries whose payload does not fit a length byte, and
    /// all but the first entry of each flag are dropped; the rest are written
    /// in flag-bit order, so that parsing the bytes gives them back.
    pub fn write_to(&self, version: Version) -> (r: Vec<u8>)
        requires
            version != Version::V2,
        ensures
            r@ == ext_bytes(entries_view(self.flag_data@), version),
            ext_header_spec(r@, version) == Some((kept_entries(entries_view(self.flag_data@), version), r@.len())),
    {
        let ghost es = entries_view(self.flag_data@);
        proof {
            lemma_ext_round_trip(es, version);
        }
        if version == Version::V4 {
            let u = self.find_payload(ExtendedFlag::Update);
            let c = self.find_payload(ExtendedFlag::Crc);
            let t = self.find_payload(ExtendedFlag::TagRestrictions);
            let mut payload: Vec<u8> = Vec::new();
            push_entry(&mut payload, u);
            push_entry(&mut payload, c);
            push_entry(&mut payload, t);
            assert(payload@ =~= v4_payloads(es));
            let fu: u8 = if u.is_some() { 0x40 } else { 0 };
            let fc: u8 = if c.is_some() { 0x20 } else { 0 };
            let ft: u8 = if t.is_some() { 0x10 } else { 0 };
            let flag_byte: u8 = fu | fc | ft;
            let total = (6 + payload.len()) as u32;
            let head = u32_to_bytes(synchsafe(total));
            let mut out: Vec<u8> = vec![head[0], head[1], head[2], head[3], 1u8, flag_byte];
            let ghost pre = out@;
            out.append(&mut payload);
            assert(pre =~= be_bytes_spec(synchsafe_spec(total)) + seq![1u8, v4_flag_byte(es)]);
            assert(out@ =~= ext_bytes(es, version));
            out
        } else {
            match self.find_payload(ExtendedFlag::Crc) {
                Some(p) => {
                    if p.len() == 4 {
                        let size = u32_to_bytes(10);
                        let out: Vec<u8> = vec![size[0], size[1], size[2], size[3], 0x80u8, 0, 0, 0, 0, 0, p[0], p[1], p[2], p[3]];
                        assert(out@ =~= ext_bytes(es, version));
                        return out;
                    }
                },
                None => {},
            }
            let size = u32_to_bytes(6);
            let out: Vec<u8> = vec![size[0], size[1], size[2], size[3], 0u8, 0, 0, 0, 0, 0];
            assert(out@ =~= ext_bytes(es, version));
            out
        }
    }

    /// Parses an extended header at the start of `data` for a tag of the given
    /// version. Returns the header and the number of bytes it takes.
    ///
    /// ID3v2.4: a synchsafe size that counts the whole header, a count of flag
    /// bytes, the flag bytes, then for each set flag bit (counted from the most
    /// significant bit of the first flag byte) a length byte and its payload.
    /// ID3v2.3: a size that counts what follows it, two flag bytes whose top
    /// bit announces a CRC, four bytes of padding size, then the CRC.
    pub fn parse(data: &[u8], version: Version) -> (r: Result<(ExtendedHeader, usize), Error>)
        requires
            version != Version::V2,
        ensures
            r is Ok <==> ext_header_spec(data@, version) is Some,
            r matches Ok((h, n)) ==> ext_header_spec(data@, version) == Some((entries_view(h.flag_data@), n as nat)),
            data@.len() < 6 ==> (r matches Err(e) && e.kind is InternalIoError),
    {
        let len = data.len();
        if len < 6 {
            return Err(unexpected_end());
        }
        let raw = ((data[0] as u32) << 24 | (data[1] as u32) << 16 | (data[2] as u32) << 8 | data[3] as u32) as u32;
        let mut entries: Vec<(ExtendedFlag, Vec<u8>)> = Vec::new();
        if version == Version::V4 {
            let size = unsynchsafe(raw) as usize;
            if size > len || size < 6 {
                return Err(Error::new(ErrorKind::InvalidTag, "extended header size out of range"));
            }
            let flag_bytes = data[4] as usize;
            if flag_bytes > size - 5 {
                return Err(Error::new(ErrorKind::InvalidTag, "extended header flags run past its end"));
            }
            let total = flag_bytes * 8;
            let mut pos: usize = 5 + flag_bytes;
            let mut b: usize = 0;
            let ghost fb = flag_bytes as nat;
            assert(entries_view(entries@) + v4_entries(data@, size as nat, fb, 0, pos as nat)->0
                =~= v4_entries(data@, size as nat, fb, 0, pos as nat)->0);
            while b < total
                invariant
                    version == Version::V4,
                    len == data@.len(),
                    6 <= size <= len,
                    5 + flag_bytes <= size,
                    total == flag_bytes * 8,
                    fb == flag_bytes,
                    flag_bytes == data@[4],
                    size == unsynchsafe_spec(raw),
                    raw == be_u32_spec(data@[0], data@[1], data@[2], data@[3]),
                    b <= total,
                    pos <= size,
                    v4_entries(data@, size as nat, fb, 0, (5 + flag_bytes) as nat) == (match v4_entries(data@, size as nat, fb, b as nat, pos as nat) {
                        Some(rest) => Some(entries_view(entries@) + rest),
                        None => None::<Seq<(ExtendedFlag, Seq<u8>)>>,
                    }),
                decreases total - b,
            {
                assert(b / 8 < flag_bytes) by (nonlinear_arith)
                    requires
                        b < flag_bytes * 8;
                let byte = data[5 + b / 8];
                let bit = (b % 8) as u8;
                assert(byte == data@[5 + b as int / 8]);
                assert((7 - bit) as u8 == (7 - (b as nat % 8)) as u8);
                if (byte >> (7 - bit)) & 1 == 1 {
                    assert((byte >> (7 - (b as nat % 8)) as u8) & 1 == 1);
                    if pos >= size {
                        assert(v4_entries(data@, size as nat, fb, b as nat, pos as nat) is None);
                        return Err(Error::new(ErrorKind::InvalidTag, "ran out of data before running out of flags"));
                    }
                    let dlen = data[pos] as usize;
                    if dlen > size - pos - 1 {
                        assert(v4_entries(data@, size as nat, fb, b as nat, pos as nat) is None);
                        return Err(Error::new(ErrorKind::InvalidTag, "ran out of data before running out of flags"));
                    }
                    let index: u8 = if b < 256 { b as u8 } else { 255 };
                    let flag = ExtendedFlag::from_index(index, version);
                    let payload = copy_range(data, pos + 1, pos + 1 + dlen);
                    let ghost ev = (flag, payload@);
                    let ghost prev = entries@;
                    entries.push((flag, payload));
                    assert(entries_view(entries@) =~= entries_view(prev).push(ev));
                    pos = pos + 1 + dlen;
                    proof {
                        let t = v4_entries(data@, size as nat, fb, (b + 1) as nat, pos as nat);
                        if t is Some {
                            assert(entries_view(entries@) + t->0 =~= entries_view(prev) + (seq![ev] + t->0));
                        }
                    }
                }
                b = b + 1;
            }
            assert(entries_view(entries@) + Seq::<(ExtendedFlag, Seq<u8>)>::empty() =~= entries_view(entries@));
            Ok((ExtendedHeader { flag_data: entries }, size))
        } else {
            if raw > 0x7FFF_FFFF || raw as usize > len - 4 || raw < 6 {
                return Err(Error::new(ErrorKind::InvalidTag, "extended header size out of range"));
            }
            let size = raw as usize + 4;
            if data[4] & 0x80 != 0 {
                if size < 14 {
                    return Err(Error::new(ErrorKind::InvalidTag, "extended header too short for its CRC"));
                }
                let crc = copy_range(data, 10, 14);
                let ghost cv = crc@;
                entries.push((ExtendedFlag::Crc, crc));
                assert(entries_view(entries@) =~= seq![(ExtendedFlag::Crc, cv)]);
            } else {
                assert(entries_view(entries@) =~= Seq::<(ExtendedFlag, Seq<u8>)>::empty());
            }
            Ok((ExtendedHeader { flag_data: entries }, size))
        }
    }
}

/// The padding written after the frames by `write_to`.
pub const DEFAULT_PADDING: u32 = 2048;

/// An ID3v2 tag: a version, header flags, an optional extended header, an
/// ordered list of frames and the length of the padding after them.
#[derive(Debug, Clone, PartialEq, Eq)]
pub struct Tag {
    /// The version of the tag.
    pub version: Version,
    /// The header flags.
    pub flags: TagFlags,
    /// The frames of the tag, in order.
    pub frames: Vec<Frame>,
    /// The length of the padding that followed the frames when the tag was read.
    pub padding_len: u32,
    /// Extended header data (ID3v2.3 or ID3v2.4), if present.
    pub extended_header: Option<ExtendedHeader>,
}

/// The contents of a sequence of frames.
pub open spec fn frames_view(fs: Seq<Frame>) -> Seq<FrameValue> {
    Seq::new(fs.len(), |i: int| fs[i]@)
}

/// The frames without those whose identifier is `id`.
pub open spec fn without_id(fs: Seq<FrameValue>, id: Id) -> Seq<FrameValue>
    decreases fs.len(),
{
    if fs.len() == 0 {
        fs
    } else if same_id(fs[0].id, id) {
        without_id(fs.drop_first(), id)
    } else {
        seq![fs[0]] + without_id(fs.drop_first(), id)
    }
}

/// The index of the first frame whose identifier is `id`, if any.
pub open spec fn first_with_id(fs: Seq<FrameValue>, id: Id) -> Option<nat>
    decreases fs.len(),
{
    if fs.len() == 0 {
        None
    } else if same_id(fs[0].id, id) {
        Some(0)
    } else {
        match first_with_id(fs.drop_first(), id) {
            Some(k) => Some(k + 1),
            None => None,
        }
    }
}

impl Tag {
    /// Whether every frame belongs to the tag's version.
    pub open spec fn wf(&self) -> bool {
        forall|i: int| 0 <= i < self.frames@.len() ==> id_version(#[trigger] self.frames@[i].id) == self.version
    }

    /// Create a new ID3v2.4 tag with no frames.
    pub fn new() -> (r: Tag)
        ensures
            r.version == Version::V4,
            r.flags == TagFlags::new_spec(Version::V4),
            r.frames@.len() == 0,
            r.padding_len == 0,
            r.extended_header is None,
            r.wf(),
    {
        Tag::with_version(Version::V4)
    }

    /// Create a new tag of the specified version with no frames.
    pub fn with_version(version: Version) -> (r: Tag)
        ensures
            r.version == version,
            r.flags == TagFlags::new_spec(version),
            r.frames@.len() == 0,
            r.padding_len == 0,
            r.extended_header is None,
            r.wf(),
    {
        Tag { version, flags: TagFlags::new(version), frames: Vec::new(), padding_len: 0, extended_header: None }
    }

    /// Get the tag's version.
    pub fn version(&self) -> (r: Version)
        ensures
            r == self.version,
    {
        self.version
    }

    /// Get the tag's header flags.
    pub fn flags(&self) -> (r: TagFlags)
        ensures
            r == self.flags,
    {
        self.flags
    }

    /// Returns the "best" text encoding for the tag's version.
    pub fn default_encoding(&self) -> (r: Encoding)
        ensures
            r == (if self.version == Version::V4 { Encoding::UTF8 } else { Encoding::UTF16 }),
    {
        self.version.default_encoding()
    }

    /// Returns all frames in the tag.
    pub fn get_frames(&self) -> (r: &Vec<Frame>)
        ensures
            r == &self.frames,
    {
        &self.frames
    }

    /// Returns the first frame with the specified identifier.
    pub fn get_frame_by_id(&self, id: Id) -> (r: Option<&Frame>)
        ensures
            r is None <==> first_with_id(frames_view(self.frames@), id) is None,
            r matches Some(f) ==> first_with_id(frames_view(self.frames@), id) matches Some(k)
                && k < self.frames@.len() && *f == self.frames@[k as int],
    {
        let ghost fs = frames_view(self.frames@);
        let n = self.frames.len();
        let mut i: usize = 0;
        assert(fs.subrange(0, n as int) =~= fs);
        while i < n
            invariant
                n == self.frames@.len(),
                fs == frames_view(self.frames@),
                i <= n,
                first_with_id(fs, id) == (match first_with_id(fs.subrange(i as int, n as int), id) {
                    Some(k) => Some((k + i) as nat),
                    None => None::<nat>,
                }),
            decreases n - i,
        {
            let ghost rest = fs.subrange(i as int, n as int);
            assert(rest.drop_first() =~= fs.subrange(i + 1, n as int));
            if self.frames[i].id.same_as(&id) {
                assert(rest[0] == self.frames@[i as int]@);
                return Some(&self.frames[i]);
            }
            i = i + 1;
        }
        assert(fs.subrange(n as int, n as int) =~= Seq::<FrameValue>::empty());
        None
    }

    /// Returns the number of frames with the specified identifier.
    pub fn count_frames_by_id(&self, id: Id) -> (r: usize)
        ensures
            r == frames_view(self.frames@).len() - without_id(frames_view(self.frames@), id).len(),
    {
        let ghost fs = frames_view(self.frames@);
        let n = self.frames.len();
        let mut i: usize = 0;
        let mut count: usize = 0;
        proof {
            lemma_without_id_len(fs, id);
        }
        assert(fs.subrange(0, n as int) =~= fs);
        while i < n
            invariant
                n == self.frames@.len(),
                fs == frames_view(self.frames@),
                i <= n,
                count <= i,
                fs.len() - without_id(fs, id).len() == count + (fs.subrange(i as int, n as int).len() - without_id(fs.subrange(i as int, n as int), id).len()),
            decreases n - i,
        {
            let ghost rest = fs.subrange(i as int, n as int);
            assert(rest.drop_first() =~= fs.subrange(i + 1, n as int));
            proof {
                lemma_without_id_len(rest.drop_first(), id);
            }
            if self.frames[i].id.same_as(&id) {
                count = count + 1;
            }
            i = i + 1;
        }
        assert(fs.subrange(n as int, n as int) =~= Seq::<FrameValue>::empty());
        assert(fs.subrange(0, n as int) =~= fs);
        count
    }

    /// Adds a frame to the tag. The versions of the tag and frame must match:
    /// returns `false` and leaves the tag as it is if they do not.
    pub fn add_frame(&mut self, frame: Frame) -> (r: bool)
        ensures
            r == (id_version(frame.id) == old(self).version),
            r ==> frames_view(final(self).frames@) == frames_view(old(self).frames@).push(frame@),
            !r ==> final(self).frames@ == old(self).frames@,
            final(self).version == old(self).version,
            final(self).flags == old(self).flags,
            final(self).padding_len == old(self).padding_len,
            final(self).extended_header == old(self).extended_header,
            old(self).wf() ==> final(self).wf(),
    {
        if frame.id.version() != self.version {
            return false;
        }
        let ghost fv = frame@;
        self.frames.push(frame);
        assert(frames_view(self.frames@) =~= frames_view(old(self).frames@).push(fv));
        true
    }

    /// Removes all frames with the specified identifier.
    pub fn remove_frames_by_id(&mut self, id: Id)
        ensures
            frames_view(final(self).frames@) == without_id(frames_view(old(self).frames@), id),
            forall|i: int| 0 <= i < final(self).frames@.len() ==> exists|j: int| 0 <= j < old(self).frames@.len() && #[trigger] final(self).frames@[i] == old(self).frames@[j],
            final(self).version == old(self).version,
            final(self).flags == old(self).flags,
            final(self).padding_len == old(self).padding_len,
            final(self).extended_header == old(self).extended_header,
            old(self).wf() ==> final(self).wf(),
    {
        let ghost orig = self.frames@;
        let mut rest: Vec<Frame> = Vec::new();
        std::mem::swap(&mut self.frames, &mut rest);
        assert(rest@.subrange(0, rest@.len() as int) =~= rest@);
        assert(frames_view(rest@) =~= frames_view(orig));
        assert(frames_view(self.frames@) + without_id(frames_view(rest@), id) =~= without_id(frames_view(orig), id));
        while rest.len() > 0
            invariant
                frames_view(self.frames@) + without_id(frames_view(rest@), id) == without_id(frames_view(orig), id),
                forall|i: int| 0 <= i < self.frames@.len() ==> exists|j: int| 0 <= j < orig.len() && #[trigger] self.frames@[i] == orig[j],
                forall|i: int| 0 <= i < rest@.len() ==> exists|j: int| 0 <= j < orig.len() && #[trigger] rest@[i] == orig[j],
                self.version == old(self).version,
                self.flags == old(self).flags,
                self.padding_len == old(self).padding_len,
                self.extended_header == old(self).extended_header,
                orig == old(self).frames@,
            decreases rest@.len(),
        {
            let ghost before = rest@;
            let f = rest.remove(0);
            assert(frames_view(before).drop_first() =~= frames_view(rest@));
            assert(forall|i: int| 0 <= i < rest@.len() ==> #[trigger] rest@[i] == before[i + 1]);
            assert(exists|j: int| 0 <= j < orig.len() && before[0] == orig[j]);
            if !f.id.same_as(&id) {
                let ghost fv = f@;
                let ghost prev = self.frames@;
                self.frames.push(f);
                assert(frames_view(self.frames@) =~= frames_view(prev).push(fv));
                assert(frames_view(self.frames@) + without_id(frames_view(rest@), id) =~= frames_view(prev) + (seq![fv] + without_id(frames_view(rest@), id)));
                assert forall|i: int| 0 <= i < self.frames@.len() implies exists|j: int| 0 <= j < orig.len() && #[trigger] self.frames@[i] == orig[j] by {
                    if i < prev.len() {
                        assert(self.frames@[i] == prev[i]);
                    }
                }
            }
        }
        assert(frames_view(rest@) =~= Seq::<FrameValue>::empty());
        assert(frames_view(self.frames@) + Seq::<FrameValue>::empty() =~= frames_view(self.frames@));
        proof {
            if old(self).wf() {
                assert forall|i: int| 0 <= i < self.frames@.len() implies id_version(#[trigger] self.frames@[i].id) == self.version by {
                    let j = choose|j: int| 0 <= j < orig.len() && self.frames@[i] == orig[j];
                    assert(id_version(orig[j].id) == self.version);
                }
            }
        }
    }

    /// Adds a text frame with the given identifier and content, transcoded to
    /// the given encoding, replacing any frames with that identifier. The
    /// identifier must be that of a text frame of the tag's version, and the
    /// version must hold the encoding.
    pub fn add_text_frame_enc(&mut self, id: Id, text: &str, encoding: Encoding)
        requires
            crate::version::is_text_spec(id),
            id_version(id) == old(self).version,
            crate::version::encoding_compatible_spec(old(self).version, encoding),
        ensures
            frames_view(final(self).frames@) == without_id(frames_view(old(self).frames@), id).push(FrameValue {
                id,
                flags: no_flags(),
                fields: text_frame_fields(id_version(id), text@, encoding),
                group_symbol: 0,
                encryption_method: 0,
            }),
            final(self).version == old(self).version,
            final(self).flags == old(self).flags,
            final(self).padding_len == old(self).padding_len,
            final(self).extended_header == old(self).extended_header,
            old(self).wf() ==> final(self).wf(),
    {
        match Frame::new_text_frame(id, text, encoding) {
            Some(frame) => {
                self.remove_frames_by_id(id);
                let ghost prev = self.frames@;
                let ghost fv = frame@;
                self.frames.push(frame);
                assert(frames_view(self.frames@) =~= frames_view(prev).push(fv));
                proof {
                    if old(self).wf() {
                        assert forall|i: int| 0 <= i < self.frames@.len() implies id_version(#[trigger] self.frames@[i].id) == self.version by {
                            if i < prev.len() {
                                assert(self.frames@[i] == prev[i]);
                            }
                        }
                    }
                }
            },
            None => {},
        }
    }

    /// Adds a UTF-8 text frame with the given identifier and content, replacing
    /// any frames with that identifier. Returns `false` and leaves the tag as
    /// it is if the identifier is not that of a text frame of the tag's
    /// version, or the version cannot hold UTF-8.
    pub fn add_text_frame(&mut self, id: Id, text: &str) -> (r: bool)
        ensures
            r == (crate::version::is_text_spec(id) && id_version(id) == old(self).version && old(self).version == Version::V4),
            r ==> frames_view(final(self).frames@) == without_id(frames_view(old(self).frames@), id).push(FrameValue {
                id,
                flags: no_flags(),
                fields: text_frame_fields(id_version(id), text@, Encoding::UTF8),
                group_symbol: 0,
                encryption_method: 0,
            }),
            !r ==> final(self).frames@ == old(self).frames@,
            final(self).version == old(self).version,
            final(self).flags == old(self).flags,
            final(self).padding_len == old(self).padding_len,
            final(self).extended_header == old(self).extended_header,
            old(self).wf() ==> final(self).wf(),
    {
        if !id.is_text() || id.version() != self.version || self.version != Version::V4 {
            return false;
        }
        self.add_text_frame_enc(id, text, Encoding::UTF8);
        true
    }

    /// Returns the text of the first frame with the specified identifier, or
    /// `None` if there is no such frame or it carries no text.
    pub fn text_frame_text(&self, id: Id) -> (r: Option<String>)
        ensures
            r is Some <==> (first_with_id(frames_view(self.frames@), id) matches Some(k)
                && frame_text_spec(frames_view(self.frames@)[k as int].fields) is Some),
            r matches Some(t) ==> (first_with_id(frames_view(self.frames@), id) matches Some(k)
                && frame_text_spec(frames_view(self.frames@)[k as int].fields) == Some(t@)),
    {
        match self.get_frame_by_id(id) {
            Some(f) => f.text(),
            None => None,
        }
    }
}

/// The frames that a tag conversion keeps, converted.
pub open spec fn converted_frames(fs: Seq<FrameValue>, to: Version) -> Seq<FrameValue>
    decreases fs.len(),
{
    if fs.len() == 0 {
        fs
    } else {
        match convert_frame_spec(fs[0], to) {
            Some(f) => seq![f] + converted_frames(fs.drop_first(), to),
            None => converted_frames(fs.drop_first(), to),
        }
    }
}

/// The header flags after converting a tag: unsynchronization stays, the
/// experimental flag stays between ID3v2.3 and ID3v2.4, the rest is cleared.
pub open spec fn converted_flags(t: TagFlags, from: Version, to: Version) -> TagFlags {
    TagFlags {
        byte: if from != Version::V2 && to != Version::V2 { t.byte & 0xA0 } else { t.byte & 0x80 },
        version: to,
    }
}

/// Whether `fs` is the sequence of frames read one after another from
/// `start` in `region`, the i-th ending at `ends[i]`.
pub open spec fn frames_read_from(region: Seq<u8>, v: Version, start: nat, fs: Seq<FrameValue>, ends: Seq<nat>) -> bool {
    &&& ends.len() == fs.len()
    &&& forall|i: int| 0 <= i < fs.len() ==> frame_read_as(region, if i == 0 { start as int } else { ends[i - 1] as int }, v, ends[i], #[trigger] fs[i])
}

/// Where the last of a run of frames ends.
pub open spec fn last_end(start: nat, ends: Seq<nat>) -> nat {
    if ends.len() == 0 { start } else { ends.last() }
}

/// Whether bytes start with the ID3v2 magic `ID3`.
pub open spec fn has_magic(data: Seq<u8>) -> bool {
    data.len() >= 3 && data[0] == 0x49 && data[1] == 0x44 && data[2] == 0x33
}

/// The version that a header's major version byte names, if any.
pub open spec fn version_of_major(b: u8) -> Option<Version> {
    if b == 2 { Some(Version::V2) } else if b == 3 { Some(Version::V3) } else if b == 4 { Some(Version::V4) } else { None }
}

/// The size that the tag header states for the frame region.
pub open spec fn tag_size(data: Seq<u8>) -> nat {
    unsynchsafe_spec(be_u32_spec(data[6], data[7], data[8], data[9])) as nat
}

/// The frame region of a tag as read: after the header, resynchronized when
/// the header flags unsynchronization.
pub open spec fn tag_region(data: Seq<u8>) -> Seq<u8> {
    let raw = data.subrange(10, 10 + tag_size(data) as int);
    if data[5] & 0x80 != 0 { resync_spec(raw) } else { raw }
}

/// The bytes of a run of frames, one after another.
pub open spec fn frames_bytes(fs: Seq<FrameValue>) -> Seq<u8>
    decreases fs.len(),
{
    if fs.len() == 0 {
        seq![]
    } else {
        frames_bytes(fs.drop_last()) + frame_bytes(fs.last())
    }
}

/// The header flag byte that `write_to` writes.
pub open spec fn written_flags(t: Tag, unsync: bool) -> u8 {
    let ext = if t.version != Version::V2 && t.extended_header is Some { 0x40u8 } else { 0u8 };
    let exp = if t.version != Version::V2 { t.flags.byte & 0x20 } else { 0u8 };
    ((if unsync { 0x80u8 } else { 0u8 }) | ext | exp) as u8
}

/// The frame region that `write_to` writes before unsynchronization.
pub open spec fn written_region(t: Tag, padding: nat) -> Seq<u8> {
    written_ext(t) + frames_bytes(frames_view(t.frames@)) + Seq::new(padding, |i: int| 0u8)
}

/// The extended header bytes that `write_to` writes: none for ID3v2.2.
pub open spec fn written_ext(t: Tag) -> Seq<u8> {
    match t.extended_header {
        Some(h) => if t.version != Version::V2 { ext_bytes(entries_view(h.flag_data@), t.version) } else { seq![] },
        None => seq![],
    }
}

/// Appends an entry's length byte and payload, if there is an entry.
fn push_entry(out: &mut Vec<u8>, p: Option<&Vec<u8>>)
    requires
        p matches Some(v) ==> v@.len() < 256,
    ensures
        final(out)@ == old(out)@ + (match p {
            Some(v) => seq![v@.len() as u8] + v@,
            None => Seq::<u8>::empty(),
        }),
{
    match p {
        Some(v) => {
            let ghost start = out@;
            out.push(v.len() as u8);
            let mut j: usize = 0;
            while j < v.len()
                invariant
                    j <= v@.len(),
                    out@ =~= start + seq![v@.len() as u8] + v@.subrange(0, j as int),
                decreases v@.len() - j,
            {
                out.push(v[j]);
                j = j + 1;
                assert(out@ =~= start + seq![v@.len() as u8] + v@.subrange(0, j as int));
            }
            assert(v@.subrange(0, j as int) =~= v@);
        },
        None => {
            assert(out@ =~= out@ + Seq::<u8>::empty());
        },
    }
}

proof fn lemma_first_payload_short(es: Seq<(ExtendedFlag, Seq<u8>)>, f: ExtendedFlag)
    ensures
        first_payload(es, f) matches Some(p) ==> p.len() < 256,
    decreases es.len(),
{
    if es.len() > 0 {
        lemma_first_payload_short(es.drop_first(), f);
    }
}

/// The length byte and payload of an optional entry.
pub open spec fn opt_bytes(o: Option<Seq<u8>>) -> Seq<u8> {
    match o {
        Some(p) => seq![p.len() as u8] + p,
        None => seq![],
    }
}

/// An optional entry of flag `f`, as a sequence of at most one entry.
pub open spec fn opt_entry(o: Option<Seq<u8>>, f: ExtendedFlag) -> Seq<(ExtendedFlag, Seq<u8>)> {
    match o {
        Some(p) => seq![(f, p)],
        None => seq![],
    }
}

/// The flag bit of an optional entry.
pub open spec fn opt_bit(o: Option<Seq<u8>>, bit: u8) -> u8 {
    if o is Some { bit } else { 0u8 }
}

proof fn lemma_v4_step(d: Seq<u8>, size: nat, b: nat, pos: nat, o: Option<Seq<u8>>, f: ExtendedFlag, rest: Seq<(ExtendedFlag, Seq<u8>)>)
    requires
        1 <= b <= 3,
        flag_of_index(b as u8, Version::V4) == f,
        ((d[5] >> (7 - b) as u8) & 1 == 1) == (o is Some),
        o matches Some(p) ==> p.len() < 256,
        pos + opt_bytes(o).len() <= size,
        size <= d.len(),
        d.subrange(pos as int, pos as int + opt_bytes(o).len()) == opt_bytes(o),
        v4_entries(d, size, 1, b + 1, pos + opt_bytes(o).len()) == Some(rest),
    ensures
        v4_entries(d, size, 1, b, pos) == Some(opt_entry(o, f) + rest),
{
    assert(5 + b as int / 8 == 5);
    assert((7 - (b % 8)) as u8 == (7 - b) as u8);
    assert((if b < 256 { b as u8 } else { 255u8 }) == b as u8);
    if o is Some {
        let p = o->0;
        assert(d[pos as int] == opt_bytes(o)[0]);
        assert(d.subrange(pos as int + 1, pos as int + 1 + p.len()) =~= p) by {
            assert forall|j: int| 0 <= j < p.len() implies d[pos + 1 + j] == p[j] by {
                assert(d.subrange(pos as int, pos as int + opt_bytes(o).len())[1 + j] == opt_bytes(o)[1 + j]);
            }
        }
    } else {
        assert(opt_entry(o, f) + rest =~= rest);
    }
}

proof fn lemma_v4_zero_step(d: Seq<u8>, size: nat, b: nat, pos: nat, rest: Seq<(ExtendedFlag, Seq<u8>)>)
    requires
        b < 8,
        (d[5] >> (7 - b) as u8) & 1 != 1,
        v4_entries(d, size, 1, b + 1, pos) == Some(rest),
    ensures
        v4_entries(d, size, 1, b, pos) == Some(rest),
{
    assert(5 + b as int / 8 == 5);
    assert((7 - (b % 8)) as u8 == (7 - b) as u8);
}

#[verifier::rlimit(50)]
proof fn lemma_v4_walk(d: Seq<u8>, size: nat, u: Option<Seq<u8>>, c: Option<Seq<u8>>, t: Option<Seq<u8>>)
    requires
        u matches Some(p) ==> p.len() < 256,
        c matches Some(p) ==> p.len() < 256,
        t matches Some(p) ==> p.len() < 256,
        d.len() == size,
        size == 6 + opt_bytes(u).len() + opt_bytes(c).len() + opt_bytes(t).len(),
        d.subrange(6, size as int) == opt_bytes(u) + opt_bytes(c) + opt_bytes(t),
        d[5] == (opt_bit(u, 0x40) | opt_bit(c, 0x20) | opt_bit(t, 0x10)) as u8,
    ensures
        v4_entries(d, size, 1, 0, 6) == Some(opt_entry(u, ExtendedFlag::Update) + opt_entry(c, ExtendedFlag::Crc)
            + opt_entry(t, ExtendedFlag::TagRestrictions)),
{
    let f = d[5];
    let x = opt_bit(u, 0x40);
    let y = opt_bit(c, 0x20);
    let z = opt_bit(t, 0x10);
    assert(((f >> 7u8) & 1 != 1) && (((f >> 6u8) & 1 == 1) == (x != 0)) && (((f >> 5u8) & 1 == 1) == (y != 0))
        && (((f >> 4u8) & 1 == 1) == (z != 0)) && ((f >> 3u8) & 1 != 1) && ((f >> 2u8) & 1 != 1)
        && ((f >> 1u8) & 1 != 1) && ((f >> 0u8) & 1 != 1)) by (bit_vector)
        requires
            f == (x | y | z) as u8,
            x == 0 || x == 0x40,
            y == 0 || y == 0x20,
            z == 0 || z == 0x10;
    let bu = opt_bytes(u);
    let bc = opt_bytes(c);
    let bt = opt_bytes(t);
    let p2: nat = (6 + bu.len()) as nat;
    let p3: nat = (6 + bu.len() + bc.len()) as nat;
    let e: Seq<(ExtendedFlag, Seq<u8>)> = Seq::empty();
    assert(v4_entries(d, size, 1, 8, size) == Some(e));
    lemma_v4_zero_step(d, size, 7, size, e);
    lemma_v4_zero_step(d, size, 6, size, e);
    lemma_v4_zero_step(d, size, 5, size, e);
    lemma_v4_zero_step(d, size, 4, size, e);
    assert(d.subrange(p3 as int, p3 as int + bt.len()) =~= bt) by {
        assert forall|j: int| 0 <= j < bt.len() implies d[p3 + j] == bt[j] by {
            assert(d.subrange(6, size as int)[bu.len() + bc.len() + j] == (bu + bc + bt)[bu.len() + bc.len() + j]);
        }
    }
    lemma_v4_step(d, size, 3, p3, t, ExtendedFlag::TagRestrictions, e);
    assert(opt_entry(t, ExtendedFlag::TagRestrictions) + e =~= opt_entry(t, ExtendedFlag::TagRestrictions));
    assert(d.subrange(p2 as int, p2 as int + bc.len()) =~= bc) by {
        assert forall|j: int| 0 <= j < bc.len() implies d[p2 + j] == bc[j] by {
            assert(d.subrange(6, size as int)[bu.len() + j] == (bu + bc + bt)[bu.len() + j]);
        }
    }
    lemma_v4_step(d, size, 2, p2, c, ExtendedFlag::Crc, opt_entry(t, ExtendedFlag::TagRestrictions));
    assert(d.subrange(6, 6 + bu.len() as int) =~= bu) by {
        assert forall|j: int| 0 <= j < bu.len() implies d[6 + j] == bu[j] by {
            assert(d.subrange(6, size as int)[j] == (bu + bc + bt)[j]);
        }
    }
    lemma_v4_step(d, size, 1, 6, u, ExtendedFlag::Update,
        opt_entry(c, ExtendedFlag::Crc) + opt_entry(t, ExtendedFlag::TagRestrictions));
    lemma_v4_zero_step(d, size, 0, 6, opt_entry(u, ExtendedFlag::Update) + (opt_entry(c, ExtendedFlag::Crc) + opt_entry(t, ExtendedFlag::TagRestrictions)));
    assert(opt_entry(u, ExtendedFlag::Update) + (opt_entry(c, ExtendedFlag::Crc) + opt_entry(t, ExtendedFlag::TagRestrictions))
        =~= opt_entry(u, ExtendedFlag::Update) + opt_entry(c, ExtendedFlag::Crc) + opt_entry(t, ExtendedFlag::TagRestrictions));
}

proof fn lemma_v4_entries_prefix(x: Seq<u8>, y: Seq<u8>, size: nat, n: nat, b: nat, pos: nat)
    requires
        size <= x.len(),
        5 + n <= size,
    ensures
        v4_entries(x + y, size, n, b, pos) == v4_entries(x, size, n, b, pos),
    decreases n * 8 - b,
{
    if b < n * 8 {
        assert(b / 8 < n) by (nonlinear_arith)
            requires
                b < n * 8;
        assert((x + y)[5 + b as int / 8] == x[5 + b as int / 8]);
        if pos < size {
            assert((x + y)[pos as int] == x[pos as int]);
            let dlen = x[pos as int] as nat;
            if dlen <= size - pos - 1 {
                assert((x + y).subrange(pos as int + 1, pos as int + 1 + dlen) =~= x.subrange(pos as int + 1, pos as int + 1 + dlen));
                lemma_v4_entries_prefix(x, y, size, n, b + 1, pos + 1 + dlen);
            }
        }
        lemma_v4_entries_prefix(x, y, size, n, b + 1, pos);
    }
}

/// An extended header that takes all of `x` reads the same with any bytes
/// after it.
pub proof fn lemma_ext_prefix(x: Seq<u8>, y: Seq<u8>, v: Version)
    requires
        v != Version::V2,
        ext_header_spec(x, v) is Some,
        (ext_header_spec(x, v)->0).1 == x.len(),
    ensures
        ext_header_spec(x + y, v) == ext_header_spec(x, v),
{
    let d = x + y;
    assert(d[0] == x[0] && d[1] == x[1] && d[2] == x[2] && d[3] == x[3] && d[4] == x[4]);
    if v == Version::V4 {
        let size = unsynchsafe_spec(be_u32_spec(x[0], x[1], x[2], x[3])) as nat;
        lemma_v4_entries_prefix(x, y, size, x[4] as nat, 0, 5 + x[4] as nat);
    } else {
        if x[4] & 0x80 != 0 {
            assert(d.subrange(10, 14) =~= x.subrange(10, 14));
        }
    }
}

/// Parsing the bytes that an extended header is written as gives back the
/// entries it was written with, in flag-bit order, and takes all the bytes.
pub proof fn lemma_ext_round_trip(es: Seq<(ExtendedFlag, Seq<u8>)>, v: Version)
    requires
        v != Version::V2,
    ensures
        ext_header_spec(ext_bytes(es, v), v) == Some((kept_entries(es, v), ext_bytes(es, v).len())),
{
    let d = ext_bytes(es, v);
    let u = first_payload(es, ExtendedFlag::Update);
    let c = first_payload(es, ExtendedFlag::Crc);
    let t = first_payload(es, ExtendedFlag::TagRestrictions);
    lemma_first_payload_short(es, ExtendedFlag::Update);
    lemma_first_payload_short(es, ExtendedFlag::Crc);
    lemma_first_payload_short(es, ExtendedFlag::TagRestrictions);
    if v == Version::V4 {
        let pl = v4_payloads(es);
        assert(pl == opt_bytes(u) + opt_bytes(c) + opt_bytes(t));
        let size: nat = (6 + pl.len()) as nat;
        let sz = synchsafe_spec(size as u32);
        assert(d == be_bytes_spec(sz) + seq![1u8, v4_flag_byte(es)] + pl);
        assert(d[0] == be_bytes_spec(sz)[0] && d[1] == be_bytes_spec(sz)[1] && d[2] == be_bytes_spec(sz)[2] && d[3] == be_bytes_spec(sz)[3]);
        lemma_be32(sz);
        lemma_synchsafe_round_trip(size as u32);
        assert(d[4] == 1 && d[5] == v4_flag_byte(es));
        assert(d.subrange(6, size as int) =~= pl);
        lemma_v4_walk(d, size, u, c, t);
        assert(kept_entries(es, v) == opt_entry(u, ExtendedFlag::Update) + opt_entry(c, ExtendedFlag::Crc)
            + opt_entry(t, ExtendedFlag::TagRestrictions));
        assert(d.len() == size);
        assert(be_u32_spec(d[0], d[1], d[2], d[3]) == sz);
        assert(unsynchsafe_spec(sz) as nat == size);
        assert(d[4] as nat == 1);
        assert(v4_entries(d, size, 1, 0, 5 + 1) == Some(kept_entries(es, v)));
    } else {
        if kept_entries(es, v).len() == 0 {
            let b = be_bytes_spec(6);
            assert(d[0] == b[0] && d[1] == b[1] && d[2] == b[2] && d[3] == b[3]);
            lemma_be32(6);
            assert(d[4] == 0u8);
            assert(0u8 & 0x80u8 == 0) by (bit_vector);
            assert(d.len() == 10);
            assert(kept_entries(es, v) =~= Seq::<(ExtendedFlag, Seq<u8>)>::empty());
        } else {
            let b = be_bytes_spec(10);
            assert(d[0] == b[0] && d[1] == b[1] && d[2] == b[2] && d[3] == b[3]);
            lemma_be32(10);
            assert(d[4] == 0x80u8);
            assert(0x80u8 & 0x80u8 != 0) by (bit_vector);
            assert(kept_entries(es, v)[0].1.len() == 4);
            assert(d.len() == 14);
            assert(d.subrange(10, 14) =~= kept_entries(es, v)[0].1);
            assert(kept_entries(es, v) =~= seq![(ExtendedFlag::Crc, d.subrange(10, 14))]);
        }
    }
}

/// Whether a tag can be written: every frame's sizes fit its header, and the
/// frame region fits the header's size field.
pub open spec fn tag_write_ok(t: Tag, unsync: bool, padding: nat) -> bool {
    &&& forall|i: int| 0 <= i < t.frames@.len() ==> frame_fits(#[trigger] t.frames@[i]@)
    &&& (if unsync { unsync_spec(written_region(t, padding)) } else { written_region(t, padding) }).len() < 0x1000_0000
}

/// The bytes of a tag: header, then its frame region, unsynchronized if asked.
pub open spec fn tag_bytes(t: Tag, unsync: bool, padding: nat) -> Seq<u8> {
    let region = if unsync { unsync_spec(written_region(t, padding)) } else { written_region(t, padding) };
    seq![0x49u8, 0x44, 0x33, version_number(t.version), 0, written_flags(t, unsync)]
        + be_bytes_spec(synchsafe_spec(region.len() as u32)) + region
}

/// Whether `t` is a tag that `read_tag` may read from `data`: the header
/// gives its version and flags, and its frames are read one after another
/// from the frame region (after any extended header) up to padding or the end.
pub open spec fn tag_read_as(data: Seq<u8>, t: Tag) -> bool {
    &&& data.len() >= 10
    &&& has_magic(data)
    &&& version_of_major(data[3]) == Some(t.version)
    &&& data[4] == 0
    &&& t.flags == TagFlags { byte: data[5], version: t.version }
    &&& 10 + tag_size(data) <= data.len()
    &&& (t.extended_header is Some <==> has_ext_header(data))
    &&& exists|start: nat, ends: Seq<nat>| {
        &&& frames_read_from(tag_region(data), t.version, start, frames_view(t.frames@), ends)
        &&& t.padding_len == tag_region(data).len() - last_end(start, ends)
        &&& last_end(start, ends) <= tag_region(data).len()
        &&& (last_end(start, ends) < tag_region(data).len() ==> tag_region(data)[last_end(start, ends) as int] == 0)
        &&& start == frames_start(data)
        &&& (t.extended_header is None ==> start == 0)
        &&& (t.extended_header matches Some(h) ==> ext_header_spec(tag_region(data), t.version) == Some((entries_view(h.flag_data@), start)))
    }
    &&& t.wf()
}

/// Whether the header of `data` announces an extended header (ID3v2.3/4).
pub open spec fn has_ext_header(data: Seq<u8>) -> bool {
    version_of_major(data[3]) != Some(Version::V2) && data[5] & 0x40 != 0
}

/// Where the frames of the tag in `data` start within its frame region: after
/// the extended header, if the header announces one.
pub open spec fn frames_start(data: Seq<u8>) -> nat {
    if has_ext_header(data) {
        match ext_header_spec(tag_region(data), version_of_major(data[3])->0) {
            Some((_, n)) => n,
            None => 0,
        }
    } else {
        0
    }
}

/// Whether `data` holds an ID3v2 tag that reads without error: a supported
/// header (without ID3v2.2 compression), a frame region within the data, a
/// well-formed extended header where one is announced, and frames read one
/// after another from its end up to padding or the end of the region.
pub open spec fn tag_readable(data: Seq<u8>) -> bool {
    &&& data.len() >= 10
    &&& has_magic(data)
    &&& version_of_major(data[3]) is Some
    &&& data[4] == 0
    &&& !(version_of_major(data[3]) == Some(Version::V2) && data[5] & 0x40 != 0)
    &&& 10 + tag_size(data) <= data.len()
    &&& (has_ext_header(data) ==> ext_header_spec(tag_region(data), version_of_major(data[3])->0) is Some)
    &&& exists|fs: Seq<FrameValue>, ends: Seq<nat>| {
        &&& frames_read_from(tag_region(data), version_of_major(data[3])->0, frames_start(data), fs, ends)
        &&& last_end(frames_start(data), ends) <= tag_region(data).len()
        &&& (last_end(frames_start(data), ends) < tag_region(data).len()
            ==> tag_region(data)[last_end(frames_start(data), ends) as int] == 0)
    }
}

/// Checks for the signature of an ID3v2 tag at the start of `data`.
pub fn probe_tag(data: &[u8]) -> (r: bool)
    ensures
        r == has_magic(data@),
{
    data.len() >= 3 && data[0] == 0x49 && data[1] == 0x44 && data[2] == 0x33
}

fn push_bytes(out: &mut Vec<u8>, data: &[u8])
    ensures
        final(out)@ == old(out)@ + data@,
{
    let ghost start = out@;
    let mut i: usize = 0;
    while i < data.len()
        invariant
            i <= data@.len(),
            out@ =~= start + data@.subrange(0, i as int),
        decreases data@.len() - i,
    {
        out.push(data[i]);
        i = i + 1;
        assert(out@ =~= start + data@.subrange(0, i as int));
    }
    assert(data@.subrange(0, i as int) =~= data@);
}

/// Reads an ID3v2 tag from the start of `data`. Returns `None` where the data
/// does not start with `ID3`.
pub fn read_tag(data: &[u8]) -> (r: Result<Option<Tag>, Error>)
    ensures
        (r matches Ok(None)) <==> !has_magic(data@),
        r matches Ok(Some(t)) ==> tag_read_as(data@, t),
        tag_readable(data@) ==> r matches Ok(Some(_)),
        has_magic(data@) && data@.len() < 10 ==> r is Err,
        has_magic(data@) && data@.len() >= 10 && version_of_major(data@[3]) is None ==> r is Err,
{
    if !probe_tag(data) {
        return Ok(None);
    }
    if data.len() < 10 {
        return Err(unexpected_end());
    }
    let version = match data[3] {
        2 => Version::V2,
        3 => Version::V3,
        4 => Version::V4,
        _ => {
            return Err(Error::new(ErrorKind::UnsupportedFeature, "unsupported ID3 tag version"));
        },
    };
    if data[4] != 0 {
        return Err(Error::new(ErrorKind::UnsupportedFeature, "unsupported ID3 tag revision"));
    }
    let flags = TagFlags::from_byte(data[5], version);
    if flags.get(TagFlag::Compression) {
        return Err(Error::new(ErrorKind::UnsupportedFeature, "ID3v2.2 compression is not supported"));
    }
    let size = unsynchsafe(((data[6] as u32) << 24 | (data[7] as u32) << 16 | (data[8] as u32) << 8 | data[9] as u32) as u32) as usize;
    if size > data.len() - 10 {
        return Err(unexpected_end());
    }
    let raw = copy_range(data, 10, 10 + size);
    let region = if data[5] & 0x80 != 0 { resynchronize(raw.as_slice()) } else { raw };
    assert(region@ == tag_region(data@));
    let mut pos: usize = 0;
    let mut extended_header: Option<ExtendedHeader> = None;
    if version != Version::V2 && flags.get(TagFlag::ExtendedHeader) {
        match ExtendedHeader::parse(region.as_slice(), version) {
            Ok((h, n)) => {
                extended_header = Some(h);
                pos = n;
            },
            Err(e) => {
                return Err(e);
            },
        }
    }
    assert(has_ext_header(data@) <==> (version != Version::V2 && flag_get(flags, TagFlag::ExtendedHeader)));
    let start = pos;
    let ghost readable = tag_readable(data@);
    let ghost mut hfs: Seq<FrameValue> = Seq::empty();
    let ghost mut hends: Seq<nat> = Seq::empty();
    proof {
        if readable {
            let (a, b) = choose|a: Seq<FrameValue>, b: Seq<nat>| {
                &&& frames_read_from(tag_region(data@), version_of_major(data@[3])->0, frames_start(data@), a, b)
                &&& last_end(frames_start(data@), b) <= tag_region(data@).len()
                &&& (last_end(frames_start(data@), b) < tag_region(data@).len()
                    ==> tag_region(data@)[last_end(frames_start(data@), b) as int] == 0)
            };
            hfs = a;
            hends = b;
            assert(start == frames_start(data@));
        }
    }
    let ghost mut ends: Seq<nat> = Seq::empty();
    let mut frames: Vec<Frame> = Vec::new();
    let rlen = region.len();
    let mut stop = false;
    while pos < rlen && !stop
        invariant
            has_magic(data@),
            data@.len() >= 10,
            version_of_major(data@[3]) == Some(version),
            data@[4] == 0,
            flags == (TagFlags { byte: data@[5], version }),
            10 + tag_size(data@) <= data@.len(),
            rlen == region@.len(),
            start <= pos <= rlen,
            stop ==> pos < rlen && region@[pos as int] == 0,
            region@ == tag_region(data@),
            frames_read_from(region@, version, start as nat, frames_view(frames@), ends),
            last_end(start as nat, ends) == pos,
            readable == tag_readable(data@),
            readable ==> {
                &&& frames_read_from(region@, version, start as nat, hfs, hends)
                &&& last_end(start as nat, hends) <= region@.len()
                &&& (last_end(start as nat, hends) < region@.len() ==> region@[last_end(start as nat, hends) as int] == 0)
                &&& frames@.len() <= hfs.len()
                &&& ends.len() == frames@.len()
                &&& forall|j: int| 0 <= j < frames@.len() ==> frames_view(frames@)[j] == hfs[j] && ends[j] == hends[j]
            },
            forall|i: int| 0 <= i < frames@.len() ==> id_version(#[trigger] frames@[i].id) == version,
            extended_header is None ==> start == 0,
            extended_header matches Some(h) ==> ext_header_spec(region@, version) == Some((entries_view(h.flag_data@), start as nat)),
            extended_header is Some <==> has_ext_header(data@),
            start == frames_start(data@),
        decreases rlen - pos + (if stop { 0int } else { 1int }),
    {
        let ghost k = frames@.len() as int;
        proof {
            if readable {
                if k < hfs.len() {
                    assert(pos == (if k == 0 { start as int } else { hends[k - 1] as int })) by {
                        if k > 0 {
                            assert(ends[k - 1] == hends[k - 1]);
                        }
                    }
                    assert(frame_read_as(region@, pos as int, version, hends[k], hfs[k]));
                } else {
                    assert(last_end(start as nat, hends) == pos) by {
                        if k > 0 {
                            assert(ends[k - 1] == hends[k - 1]);
                        }
                    }
                }
            }
        }
        match Frame::read_from(region.as_slice(), pos, version) {
            Ok(None) => {
                stop = true;
            },
            Ok(Some((end, f))) => {
                proof {
                    reveal(frame_read_as);
                    if readable {
                        assert(k < hfs.len());
                        lemma_frame_read_unique(region@, pos as int, version, end as nat, f@, hends[k], hfs[k]);
                    }
                }
                if end <= pos {
                    return Err(Error::new(ErrorKind::InvalidTag, "frame makes no progress"));
                }
                let ghost fv = f@;
                let ghost prev = frames@;
                let ghost prev_ends = ends;
                frames.push(f);
                proof {
                    ends = ends.push(end as nat);
                    assert(frames_view(frames@) =~= frames_view(prev).push(fv));
                    assert forall|i: int| 0 <= i < frames_view(frames@).len() implies frame_read_as(region@, if i == 0 { start as int } else { ends[i - 1] as int }, version, ends[i], #[trigger] frames_view(frames@)[i]) by {
                        if i < prev.len() {
                            assert(frames_view(frames@)[i] == frames_view(prev)[i]);
                            assert(ends[i] == prev_ends[i]);
                            if i > 0 {
                                assert(ends[i - 1] == prev_ends[i - 1]);
                            }
                        } else {
                            assert(i == prev.len());
                            if i > 0 {
                                assert(ends[i - 1] == prev_ends.last());
                            }
                        }
                    }
                    assert forall|i: int| 0 <= i < frames@.len() implies id_version(#[trigger] frames@[i].id) == version by {
                        if i < prev.len() {
                            assert(frames@[i] == prev[i]);
                        }
                    }
                    if readable {
                        assert forall|j: int| 0 <= j < frames@.len() implies frames_view(frames@)[j] == hfs[j] && ends[j] == hends[j] by {
                            if j < prev.len() {
                                assert(frames_view(frames@)[j] == frames_view(prev)[j]);
                                assert(ends[j] == prev_ends[j]);
                            }
                        }
                    }
                }
                pos = end;
            },
            Err(e) => {
                return Err(e);
            },
        }
    }
    let padding_len = rlen - pos;
    proof {
        crate::util::lemma_resync_len(raw@, false);
    }
    if padding_len > 0xFFFF_FFFF {
        return Err(Error::new(ErrorKind::InvalidTag, "padding too long"));
    }
    let tag = Tag { version, flags, frames, padding_len: padding_len as u32, extended_header };
    assert(frames_read_from(tag_region(data@), tag.version, start as nat, frames_view(tag.frames@), ends));
    Ok(Some(tag))
}

impl Tag {
    /// Serializes the tag with the default padding. If `unsynchronization` is
    /// set, the frame region is unsynchronized and the header says so.
    pub fn write_to(&self, unsynchronization: bool) -> (r: Result<Vec<u8>, Error>)
        ensures
            r is Ok <==> tag_write_ok(*self, unsynchronization, DEFAULT_PADDING as nat),
            r matches Ok(b) ==> b@ == tag_bytes(*self, unsynchronization, DEFAULT_PADDING as nat),
    {
        self.write_with_padding(unsynchronization, DEFAULT_PADDING)
    }

    /// Serializes the tag with `padding` zero bytes after the frames. Fails
    /// exactly where the extended header's entries pass the writer's limits, a
    /// frame's sizes do not fit its header, or the tag is too large for its
    /// size field.
    pub fn write_with_padding(&self, unsynchronization: bool, padding: u32) -> (r: Result<Vec<u8>, Error>)
        ensures
            r is Ok <==> tag_write_ok(*self, unsynchronization, padding as nat),
            r matches Ok(b) ==> b@ == tag_bytes(*self, unsynchronization, padding as nat),
    {
        let mut region: Vec<u8> = Vec::new();
        let mut has_ext = false;
        match &self.extended_header {
            Some(h) => {
                if self.version != Version::V2 {
                    let b = h.write_to(self.version);
                    push_bytes(&mut region, b.as_slice());
                    has_ext = true;
                }
            },
            None => {},
        }
        let ghost ext = region@;
        let n = self.frames.len();
        let mut i: usize = 0;
        assert(frames_view(self.frames@).take(0) =~= Seq::<FrameValue>::empty());
        while i < n
            invariant
                n == self.frames@.len(),
                i <= n,
                region@ == ext + frames_bytes(frames_view(self.frames@).take(i as int)),
                forall|j: int| 0 <= j < i ==> frame_fits(#[trigger] self.frames@[j]@),
            decreases n - i,
        {
            match self.frames[i].write_to() {
                Ok(b) => {
                    push_bytes(&mut region, b.as_slice());
                },
                Err(e) => {
                    assert(!frame_fits(self.frames@[i as int]@));
                    return Err(e);
                },
            }
            let ghost t = frames_view(self.frames@).take(i + 1);
            assert(t.drop_last() =~= frames_view(self.frames@).take(i as int));
            i = i + 1;
            assert(region@ =~= ext + frames_bytes(frames_view(self.frames@).take(i as int)));
        }
        assert(frames_view(self.frames@).take(n as int) =~= frames_view(self.frames@));
        let ghost before_pad = region@;
        let mut p: u32 = 0;
        while p < padding
            invariant
                p <= padding,
                region@ =~= before_pad + Seq::new(p as nat, |k: int| 0u8),
            decreases padding - p,
        {
            region.push(0);
            p = p + 1;
            assert(region@ =~= before_pad + Seq::new(p as nat, |k: int| 0u8));
        }
        assert(region@ == written_region(*self, padding as nat));
        let body = if unsynchronization { unsynchronize(region.as_slice()) } else { region };
        if body.len() >= 0x1000_0000 {
            return Err(Error::new(ErrorKind::InvalidTag, "tag too large for its size field"));
        }
        let ext_bit: u8 = if has_ext { 0x40 } else { 0 };
        let exp_bit: u8 = if self.version != Version::V2 { self.flags.byte & 0x20 } else { 0 };
        let unsync_bit: u8 = if unsynchronization { 0x80 } else { 0 };
        let flag_byte: u8 = unsync_bit | ext_bit | exp_bit;
        assert(flag_byte == written_flags(*self, unsynchronization));
        let vb = self.version.to_bytes();
        let size = u32_to_bytes(synchsafe(body.len() as u32));
        let mut out: Vec<u8> = vec![0x49u8, 0x44, 0x33, vb[0], vb[1], flag_byte, size[0], size[1], size[2], size[3]];
        let ghost head = out@;
        push_bytes(&mut out, body.as_slice());
        assert(head =~= seq![0x49u8, 0x44, 0x33, version_number(self.version), 0, written_flags(*self, unsynchronization)]
            + be_bytes_spec(synchsafe_spec(body@.len() as u32)));
        assert(out@ =~= tag_bytes(*self, unsynchronization, padding as nat));
        Ok(out)
    }

    /// The size in bytes of the serialized tag with the default padding, if
    /// it can be written.
    pub fn size(&self) -> (r: Option<usize>)
        ensures
            r is Some <==> tag_write_ok(*self, false, DEFAULT_PADDING as nat),
            r matches Some(n) ==> n == tag_bytes(*self, false, DEFAULT_PADDING as nat).len(),
    {
        match self.write_to(false) {
            Ok(b) => Some(b.len()),
            Err(_) => None,
        }
    }

    /// Converts the tag to the specified version, dropping any frame that
    /// cannot be represented in it, and the extended header. Since this is a
    /// lossy conversion, converting from version A to B and back is unlikely
    /// to preserve all data.
    pub fn convert_version(&mut self, version: Version)
        ensures
            old(self).version == version ==> *final(self) == *old(self),
            old(self).version != version ==> {
                &&& final(self).version == version
                &&& final(self).flags == converted_flags(old(self).flags, old(self).version, version)
                &&& frames_view(final(self).frames@) == converted_frames(frames_view(old(self).frames@), version)
                &&& final(self).padding_len == old(self).padding_len
                &&& final(self).extended_header is None
            },
            old(self).version != version || old(self).wf() ==> final(self).wf(),
    {
        if self.version == version {
            return;
        }
        let byte = if self.version != Version::V2 && version != Version::V2 { self.flags.byte & 0xA0 } else { self.flags.byte & 0x80 };
        self.flags = TagFlags { byte, version };
        self.version = version;
        self.extended_header = None;
        let ghost orig = self.frames@;
        let mut rest: Vec<Frame> = Vec::new();
        std::mem::swap(&mut self.frames, &mut rest);
        assert(frames_view(self.frames@) + converted_frames(frames_view(rest@), version) =~= converted_frames(frames_view(orig), version));
        while rest.len() > 0
            invariant
                frames_view(self.frames@) + converted_frames(frames_view(rest@), version) == converted_frames(frames_view(orig), version),
                forall|i: int| 0 <= i < self.frames@.len() ==> id_version(#[trigger] self.frames@[i].id) == version,
                self.version == version,
                self.flags == converted_flags(old(self).flags, old(self).version, version),
                self.padding_len == old(self).padding_len,
                self.extended_header is None,
                orig == old(self).frames@,
            decreases rest@.len(),
        {
            let ghost before = rest@;
            let mut f = rest.remove(0);
            assert(frames_view(before).drop_first() =~= frames_view(rest@));
            let ghost fv = f@;
            if f.convert_version(version) {
                let ghost prev = self.frames@;
                let ghost nv = f@;
                self.frames.push(f);
                assert(frames_view(self.frames@) =~= frames_view(prev).push(nv));
                assert(frames_view(self.frames@) + converted_frames(frames_view(rest@), version) =~= frames_view(prev) + (seq![nv] + converted_frames(frames_view(rest@), version)));
                assert forall|i: int| 0 <= i < self.frames@.len() implies id_version(#[trigger] self.frames@[i].id) == version by {
                    if i < prev.len() {
                        assert(self.frames@[i] == prev[i]);
                    }
                }
            }
        }
        assert(frames_view(rest@) =~= Seq::<FrameValue>::empty());
        assert(frames_view(self.frames@) + Seq::<FrameValue>::empty() =~= frames_view(self.frames@));
    }
}

/// Whether a frame's text is in an encoding that ID3v2.3 holds too.
pub open spec fn text_fits_v3(fs: Seq<crate::field::FieldValue>) -> bool {
    !(fs.len() > 0 && fs[0] is TextEncoding && (fs[0]->TextEncoding_0 == Encoding::UTF8 || fs[0]->TextEncoding_0 == Encoding::UTF16BE))
}

/// Converting the frames of an ID3v2.4 tag to ID3v2.3 and back keeps every
/// frame, in order, under its ID3v2.4 identifier; and it gives back unchanged
/// each frame whose text is Latin-1 or UTF-16 and, as ID3v2.4 asks, whose
/// compression comes with a data length indicator.
pub proof fn lemma_convert_v4_v3_round_trip(fs: Seq<FrameValue>)
    requires
        forall|i: int| 0 <= i < fs.len() ==> id_version(#[trigger] fs[i].id) == Version::V4,
    ensures
        converted_frames(converted_frames(fs, Version::V3), Version::V4).len() == fs.len(),
        forall|i: int| 0 <= i < fs.len() ==> #[trigger] converted_frames(converted_frames(fs, Version::V3), Version::V4)[i].id == fs[i].id,
        forall|i: int| 0 <= i < fs.len() && text_fits_v3(fs[i].fields)
            && (fs[i].flags.compression ==> fs[i].flags.data_length_indicator)
            ==> #[trigger] converted_frames(converted_frames(fs, Version::V3), Version::V4)[i] == fs[i],
    decreases fs.len(),
{
    let out = converted_frames(converted_frames(fs, Version::V3), Version::V4);
    if fs.len() == 0 {
        assert(converted_frames(fs, Version::V3) =~= Seq::<FrameValue>::empty());
    } else {
        let f = fs[0];
        let rest = fs.drop_first();
        assert forall|i: int| 0 <= i < rest.len() implies id_version(#[trigger] rest[i].id) == Version::V4 by {
            assert(rest[i] == fs[i + 1]);
        }
        lemma_convert_v4_v3_round_trip(rest);
        let g = convert_frame_spec(f, Version::V3)->0;
        assert(convert_frame_spec(f, Version::V3) is Some);
        let down = seq![g] + converted_frames(rest, Version::V3);
        assert(converted_frames(fs, Version::V3) == down);
        assert(down[0] == g);
        assert(down.drop_first() =~= converted_frames(rest, Version::V3));
        let g2 = convert_frame_spec(g, Version::V4)->0;
        assert(convert_frame_spec(g, Version::V4) is Some);
        assert(g2.id == f.id) by {
            match f.id {
                Id::V4(a) => {},
                _ => {},
            }
        }
        if text_fits_v3(f.fields) && (f.flags.compression ==> f.flags.data_length_indicator) {
            assert(g2 == f) by {
                assert(g.flags =~= f.flags);
            }
        }
        let back = converted_frames(converted_frames(rest, Version::V3), Version::V4);
        assert(out == seq![g2] + back);
        assert forall|i: int| 0 <= i < fs.len() implies #[trigger] out[i].id == fs[i].id by {
            if i > 0 {
                assert(out[i] == back[i - 1]);
                assert(fs[i] == rest[i - 1]);
            }
        }
        assert forall|i: int| 0 <= i < fs.len() && text_fits_v3(fs[i].fields)
            && (fs[i].flags.compression ==> fs[i].flags.data_length_indicator) implies #[trigger] out[i] == fs[i] by {
            if i > 0 {
                assert(out[i] == back[i - 1]);
                assert(fs[i] == rest[i - 1]);
            }
        }
    }
}

proof fn lemma_without_id_len(fs: Seq<FrameValue>, id: Id)
    ensures
        without_id(fs, id).len() <= fs.len(),
    decreases fs.len(),
{
    if fs.len() > 0 {
        lemma_without_id_len(fs.drop_first(), id);
    }
}

impl TagFlags {
    /// The flags with every flag clear.
    pub open spec fn new_spec(version: Version) -> TagFlags {
        TagFlags { byte: 0, version }
    }
}

} // verus!
