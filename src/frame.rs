//! ID3v2 frames: flags, the field sequence of a frame, and the per-version
//! frame header codec.
use vstd::prelude::*;
use crate::encoding::Encoding;
use crate::field::{Field, FieldType, FieldValue, field_bytes, parse_field_spec, list_view};
use crate::frameinfo::{format_spec, frame_format, frame_description, description_spec};
use crate::version::{Id, Version, id_version, id_name, is_text_spec, is_url_spec, encoding_compatible_spec};
use crate::text::{encode_spec, encode_string, decode_spec, string_from_encoding};
use crate::frameinfo::{convert_id_2_to_3, convert_id_3_to_2, rename_2_to_34, rename_34_to_2, key3, key4};
use crate::error::{Error, ErrorKind};
use crate::compress::{deflate_of, inflate_of, zlib_compress, zlib_decompress};
use crate::util::{be_bytes_spec, synchsafe_spec, unsynchsafe_spec, be_u32_spec, unsync_spec, resync_spec, synchsafe, unsynchsafe, u32_to_bytes, unsynchronize, resynchronize, copy_range};

verus! {

/// The flags of an ID3v2.3/2.4 frame header.
#[derive(Debug, Clone, Copy, PartialEq, Eq, Structural)]
pub struct FrameFlags {
    /// Unknown-frame parsers should drop the frame when the tag is altered.
    pub tag_alter_preservation: bool,
    /// Unknown-frame parsers should drop the frame when the file is altered.
    pub file_alter_preservation: bool,
    /// The frame is meant to be read-only.
    pub read_only: bool,
    /// The frame belongs to a group named by its group symbol.
    pub grouping_identity: bool,
    /// The frame body is zlib-compressed.
    pub compression: bool,
    /// The frame body is encrypted.
    pub encryption: bool,
    /// The frame body is unsynchronized (ID3v2.4).
    pub unsynchronization: bool,
    /// A data length indicator precedes the body (ID3v2.4).
    pub data_length_indicator: bool,
}

/// Bit `mask` of a 16-bit flag word, set or not.
pub open spec fn bit(set: bool, mask: u16) -> u16 {
    if set { mask } else { 0 }
}

/// The 16-bit flag word of an ID3v2.3 frame header.
pub open spec fn flags_word_v3(f: FrameFlags) -> u16 {
    (bit(f.tag_alter_preservation, 0x8000) | bit(f.file_alter_preservation, 0x4000) | bit(f.read_only, 0x2000)
        | bit(f.compression, 0x0080) | bit(f.encryption, 0x0040) | bit(f.grouping_identity, 0x0020)) as u16
}

/// The 16-bit flag word of an ID3v2.4 frame header.
pub open spec fn flags_word_v4(f: FrameFlags) -> u16 {
    (bit(f.tag_alter_preservation, 0x4000) | bit(f.file_alter_preservation, 0x2000) | bit(f.read_only, 0x1000)
        | bit(f.grouping_identity, 0x0040) | bit(f.compression, 0x0008) | bit(f.encryption, 0x0004)
        | bit(f.unsynchronization, 0x0002) | bit(f.data_length_indicator, 0x0001)) as u16
}

/// The flags that an ID3v2.3 flag word holds.
pub open spec fn flags_of_word_v3(w: u16) -> FrameFlags {
    FrameFlags {
        tag_alter_preservation: w & 0x8000 != 0,
        file_alter_preservation: w & 0x4000 != 0,
        read_only: w & 0x2000 != 0,
        grouping_identity: w & 0x0020 != 0,
        compression: w & 0x0080 != 0,
        encryption: w & 0x0040 != 0,
        unsynchronization: false,
        data_length_indicator: false,
    }
}

/// The flags that an ID3v2.4 flag word holds.
pub open spec fn flags_of_word_v4(w: u16) -> FrameFlags {
    FrameFlags {
        tag_alter_preservation: w & 0x4000 != 0,
        file_alter_preservation: w & 0x2000 != 0,
        read_only: w & 0x1000 != 0,
        grouping_identity: w & 0x0040 != 0,
        compression: w & 0x0008 != 0,
        encryption: w & 0x0004 != 0,
        unsynchronization: w & 0x0002 != 0,
        data_length_indicator: w & 0x0001 != 0,
    }
}

/// No flag set.
pub open spec fn no_flags() -> FrameFlags {
    FrameFlags {
        tag_alter_preservation: false,
        file_alter_preservation: false,
        read_only: false,
        grouping_identity: false,
        compression: false,
        encryption: false,
        unsynchronization: false,
        data_length_indicator: false,
    }
}

fn flag_bit(set: bool, mask: u16) -> (r: u16)
    ensures
        r == bit(set, mask),
{
    if set { mask } else { 0 }
}

impl FrameFlags {
    /// Creates flags with every flag clear.
    pub fn new() -> (r: FrameFlags)
        ensures
            r == no_flags(),
    {
        FrameFlags {
            tag_alter_preservation: false,
            file_alter_preservation: false,
            read_only: false,
            grouping_identity: false,
            compression: false,
            encryption: false,
            unsynchronization: false,
            data_length_indicator: false,
        }
    }

    /// Returns the two flag bytes of a frame header for the given major
    /// version: the ID3v2.4 layout for 4, the ID3v2.3 layout otherwise.
    pub fn to_bytes(&self, version: u8) -> (r: [u8; 2])
        ensures
            version == 4 ==> r@ == seq![(flags_word_v4(*self) >> 8) as u8, (flags_word_v4(*self) & 0xFF) as u8],
            version != 4 ==> r@ == seq![(flags_word_v3(*self) >> 8) as u8, (flags_word_v3(*self) & 0xFF) as u8],
    {
        let w: u16 = if version == 4 {
            flag_bit(self.tag_alter_preservation, 0x4000) | flag_bit(self.file_alter_preservation, 0x2000)
                | flag_bit(self.read_only, 0x1000) | flag_bit(self.grouping_identity, 0x0040)
                | flag_bit(self.compression, 0x0008) | flag_bit(self.encryption, 0x0004)
                | flag_bit(self.unsynchronization, 0x0002) | flag_bit(self.data_length_indicator, 0x0001)
        } else {
            flag_bit(self.tag_alter_preservation, 0x8000) | flag_bit(self.file_alter_preservation, 0x4000)
                | flag_bit(self.read_only, 0x2000) | flag_bit(self.compression, 0x0080)
                | flag_bit(self.encryption, 0x0040) | flag_bit(self.grouping_identity, 0x0020)
        };
        let r = [(w >> 8) as u8, (w & 0xFF) as u8];
        assert(r@ =~= seq![(w >> 8) as u8, (w & 0xFF) as u8]);
        r
    }

    /// Reads the flags of a frame header flag word under a version.
    pub fn from_word(w: u16, version: Version) -> (r: FrameFlags)
        ensures
            r == (if version == Version::V4 { flags_of_word_v4(w) } else { flags_of_word_v3(w) }),
    {
        if version == Version::V4 {
            FrameFlags {
                tag_alter_preservation: w & 0x4000 != 0,
                file_alter_preservation: w & 0x2000 != 0,
                read_only: w & 0x1000 != 0,
                grouping_identity: w & 0x0040 != 0,
                compression: w & 0x0008 != 0,
                encryption: w & 0x0004 != 0,
                unsynchronization: w & 0x0002 != 0,
                data_length_indicator: w & 0x0001 != 0,
            }
        } else {
            FrameFlags {
                tag_alter_preservation: w & 0x8000 != 0,
                file_alter_preservation: w & 0x4000 != 0,
                read_only: w & 0x2000 != 0,
                grouping_identity: w & 0x0020 != 0,
                compression: w & 0x0080 != 0,
                encryption: w & 0x0040 != 0,
                unsynchronization: false,
                data_length_indicator: false,
            }
        }
    }
}

/// An ID3v2 frame: an identifier that gives its purpose and layout, and the
/// fields that make up its content.
#[derive(Debug, Clone, PartialEq, Eq)]
pub struct Frame {
    /// The frame identifier, namespaced to the ID3v2 version of the frame.
    pub id: Id,
    /// Flags governing serialization and the frame's relation to the tag.
    pub flags: FrameFlags,
    /// The parsed content of the frame.
    pub fields: Vec<Field>,
    /// The group this frame belongs to, meaningful when grouping is flagged.
    pub group_symbol: u8,
    /// The encryption method of the frame, meaningful when encryption is flagged.
    pub encryption_method: u8,
}

/// The mathematical content of a frame.
pub struct FrameValue {
    pub id: Id,
    pub flags: FrameFlags,
    pub fields: Seq<FieldValue>,
    pub group_symbol: u8,
    pub encryption_method: u8,
}

/// The contents of a sequence of fields.
pub open spec fn fields_view(v: Seq<Field>) -> Seq<FieldValue> {
    Seq::new(v.len(), |i: int| v[i]@)
}

impl View for Frame {
    type V = FrameValue;

    open spec fn view(&self) -> FrameValue {
        FrameValue {
            id: self.id,
            flags: self.flags,
            fields: fields_view(self.fields@),
            group_symbol: self.group_symbol,
            encryption_method: self.encryption_method,
        }
    }
}

/// The text encoding of a field sequence: that of its leading encoding field,
/// Latin-1 where it has none.
pub open spec fn fields_encoding(fs: Seq<FieldValue>) -> Encoding {
    if fs.len() > 0 && fs[0] is TextEncoding {
        fs[0]->TextEncoding_0
    } else {
        Encoding::Latin1
    }
}

/// The bytes of the first `n` fields of a frame.
pub open spec fn fields_bytes_take(fs: Seq<FieldValue>, enc: Encoding, n: nat) -> Seq<u8>
    decreases n,
{
    if n == 0 || n > fs.len() {
        seq![]
    } else {
        fields_bytes_take(fs, enc, (n - 1) as nat) + field_bytes(fs[n - 1], enc, n == fs.len())
    }
}

/// The body bytes of a field sequence: each field in turn, the last without a
/// trailing delimiter.
pub open spec fn fields_bytes(fs: Seq<FieldValue>) -> Seq<u8> {
    fields_bytes_take(fs, fields_encoding(fs), fs.len())
}

/// The fields of kinds `kinds[i..]` read from `pos` on, with `enc` the
/// encoding in force, or `None` where the body is malformed.
pub open spec fn parse_fields_from(kinds: Seq<FieldType>, i: nat, enc: Encoding, data: Seq<u8>, pos: nat) -> Option<Seq<FieldValue>>
    decreases kinds.len() - i,
{
    if i >= kinds.len() {
        Some(seq![])
    } else {
        match parse_field_spec(kinds[i as int], enc, data, pos, i + 1 == kinds.len()) {
            None => None,
            Some((f, p)) => if p > data.len() {
                None
            } else {
                let enc2 = match f {
                    FieldValue::TextEncoding(e) => e,
                    _ => enc,
                };
                match parse_fields_from(kinds, i + 1, enc2, data, p) {
                    Some(rest) => Some(seq![f] + rest),
                    None => None,
                }
            },
        }
    }
}

/// The fields that a frame body holds under an identifier's layout.
pub open spec fn decode_fields_spec(id: Id, data: Seq<u8>) -> Option<Seq<FieldValue>> {
    parse_fields_from(format_spec(id), 0, Encoding::Latin1, data, 0)
}

/// The field sequence of a new text frame of a version: one string before
/// ID3v2.4, a one-item string list in ID3v2.4.
pub open spec fn text_frame_fields(v: Version, text: Seq<char>, e: Encoding) -> Seq<FieldValue> {
    if v == Version::V4 {
        seq![FieldValue::TextEncoding(e), FieldValue::StrList(seq![encode_spec(text, e)])]
    } else {
        seq![FieldValue::TextEncoding(e), FieldValue::Str(encode_spec(text, e))]
    }
}

/// Reads the fields of a frame body under the layout of an identifier.
pub fn decode_fields(id: Id, data: &[u8]) -> (r: Result<Vec<Field>, Error>)
    ensures
        r is Ok <==> decode_fields_spec(id, data@) is Some,
        r matches Ok(fs) ==> decode_fields_spec(id, data@) == Some(fields_view(fs@)),
{
    let kinds = match frame_format(id) {
        Some(k) => k,
        None => {
            return Err(Error::new(ErrorKind::InvalidTag, "no format could be chosen for the frame ID"));
        },
    };
    let n = kinds.len();
    let mut fields: Vec<Field> = Vec::new();
    let mut enc = Encoding::Latin1;
    let mut pos: usize = 0;
    let mut i: usize = 0;
    assert(fields_view(fields@) + parse_fields_from(kinds@, 0, Encoding::Latin1, data@, 0)->0 =~= parse_fields_from(kinds@, 0, Encoding::Latin1, data@, 0)->0);
    while i < n
        invariant
            n == kinds@.len(),
            kinds@ == format_spec(id),
            i <= n,
            pos <= data@.len(),
            decode_fields_spec(id, data@) == (match parse_fields_from(kinds@, i as nat, enc, data@, pos as nat) {
                Some(rest) => Some(fields_view(fields@) + rest),
                None => None::<Seq<FieldValue>>,
            }),
        decreases n - i,
    {
        let r = Field::parse(data, pos, kinds[i], enc, i + 1 == n);
        match r {
            Err(e) => {
                return Err(e);
            },
            Ok((f, p)) => {
                if p > data.len() {
                    return Err(Error::new(ErrorKind::InvalidTag, "field runs past the frame"));
                }
                let ghost fv = f@;
                match &f {
                    Field::TextEncoding(e) => {
                        enc = *e;
                    },
                    _ => {},
                }
                fields.push(f);
                pos = p;
                i = i + 1;
                proof {
                    let t = parse_fields_from(kinds@, i as nat, enc, data@, pos as nat);
                    assert(fields_view(fields@) =~= fields_view(fields@.drop_last()).push(fv));
                    if t is Some {
                        assert(fields_view(fields@) + t->0 =~= fields_view(fields@.drop_last()) + (seq![fv] + t->0));
                    }
                }
            },
        }
    }
    assert(parse_fields_from(kinds@, i as nat, enc, data@, pos as nat) == Some(Seq::<FieldValue>::empty()));
    assert(fields_view(fields@) + Seq::<FieldValue>::empty() =~= fields_view(fields@));
    Ok(fields)
}

/// Appends the bytes of a field sequence.
fn encode_fields(fields: &Vec<Field>) -> (r: Vec<u8>)
    ensures
        r@ == fields_bytes(fields_view(fields@)),
{
    let ghost fs = fields_view(fields@);
    let enc = match fields.len() {
        0 => Encoding::Latin1,
        _ => match &fields[0] {
            Field::TextEncoding(e) => *e,
            _ => Encoding::Latin1,
        },
    };
    assert(enc == fields_encoding(fs));
    let mut out: Vec<u8> = Vec::new();
    let n = fields.len();
    let mut i: usize = 0;
    while i < n
        invariant
            n == fields@.len(),
            fs == fields_view(fields@),
            i <= n,
            out@ == fields_bytes_take(fs, enc, i as nat),
        decreases n - i,
    {
        fields[i].serialize(&mut out, enc, i + 1 == n);
        i = i + 1;
    }
    out
}

impl Frame {
    /// Creates a new ID3v2 frame with the specified identifier and no fields.
    pub fn new(id: Id) -> (r: Frame)
        ensures
            r@.id == id,
            r@.flags == no_flags(),
            r@.fields.len() == 0,
            r@.group_symbol == 0,
            r@.encryption_method == 0,
    {
        Frame { id, flags: FrameFlags::new(), fields: Vec::new(), group_symbol: 0, encryption_method: 0 }
    }

    /// Creates a new text frame holding `s`, transcoded to `encoding`.
    /// Returns `None` if the identifier is not that of a text frame (TXX/TXXX
    /// excluded), or if its version cannot hold the encoding.
    pub fn new_text_frame(id: Id, s: &str, encoding: Encoding) -> (r: Option<Frame>)
        ensures
            r is Some <==> (is_text_spec(id) && encoding_compatible_spec(id_version(id), encoding)),
            r matches Some(f) ==> f@.id == id && f@.flags == no_flags() && f@.group_symbol == 0 && f@.encryption_method == 0
                && f@.fields == text_frame_fields(id_version(id), s@, encoding),
    {
        if !id.is_text() || !id.version().encoding_compatible(encoding) {
            return None;
        }
        let mut frame = Frame::new(id);
        let encoded = encode_string(s, encoding);
        if id.version() == Version::V4 {
            let ghost e = encoded@;
            let inner = vec![encoded];
            assert(list_view(inner@) =~= seq![e]);
            frame.fields = vec![Field::TextEncoding(encoding), Field::StringList(inner)];
        } else {
            frame.fields = vec![Field::TextEncoding(encoding), Field::String(encoded)];
        }
        assert(fields_view(frame.fields@) =~= text_frame_fields(id_version(id), s@, encoding));
        Some(frame)
    }

    /// Creates a new URL frame holding the Latin-1 URL `url`. Returns `None`
    /// if the identifier is not that of a URL frame (WXX/WXXX excluded).
    pub fn new_url_frame(id: Id, url: &[u8]) -> (r: Option<Frame>)
        ensures
            r is Some <==> is_url_spec(id),
            r matches Some(f) ==> f@.id == id && f@.flags == no_flags() && f@.fields == seq![FieldValue::Latin1(url@)],
    {
        if !id.is_url() {
            return None;
        }
        let mut frame = Frame::new(id);
        frame.fields = vec![Field::Latin1(vstd::slice::slice_to_vec(url))];
        assert(fields_view(frame.fields@) =~= seq![FieldValue::Latin1(url@)]);
        Some(frame)
    }

    /// Returns the encoding named by the frame's leading encoding field, if any.
    pub fn encoding(&self) -> (r: Option<Encoding>)
        ensures
            r == (if self@.fields.len() > 0 && self@.fields[0] is TextEncoding {
                Some(self@.fields[0]->TextEncoding_0)
            } else {
                None::<Encoding>
            }),
    {
        if self.fields.len() == 0 {
            return None;
        }
        match &self.fields[0] {
            Field::TextEncoding(e) => Some(*e),
            _ => None,
        }
    }

    /// Returns the frame's flags.
    pub fn flags(&self) -> (r: FrameFlags)
        ensures
            r == self@.flags,
    {
        self.flags
    }

    /// Returns whether the frame is stored using zlib compression.
    pub fn compression(&self) -> (r: bool)
        ensures
            r == self@.flags.compression,
    {
        self.flags.compression
    }

    /// Sets whether zlib compression will be used when storing the frame. In
    /// ID3v2.4 compression also sets the data length indicator.
    pub fn set_compression(&mut self, compression: bool)
        ensures
            final(self)@.flags == (FrameFlags {
                compression,
                data_length_indicator: old(self)@.flags.data_length_indicator || (compression && id_version(old(self).id) == Version::V4),
                ..old(self)@.flags
            }),
            final(self).id == old(self).id,
            final(self)@.fields == old(self)@.fields,
            final(self)@.group_symbol == old(self)@.group_symbol,
            final(self)@.encryption_method == old(self)@.encryption_method,
    {
        self.flags.compression = compression;
        if compression && self.id.version() == Version::V4 {
            self.flags.data_length_indicator = true;
        }
    }

    /// Returns the frame's "tag alter preservation" flag: whether parsers that
    /// do not know the frame should drop it when the tag is altered.
    pub fn tag_alter_preservation(&self) -> (r: bool)
        ensures
            r == self@.flags.tag_alter_preservation,
    {
        self.flags.tag_alter_preservation
    }

    /// Sets the frame's "tag alter preservation" flag.
    pub fn set_tag_alter_preservation(&mut self, tag_alter_preservation: bool)
        ensures
            final(self)@.flags == (FrameFlags { tag_alter_preservation, ..old(self)@.flags }),
            final(self).id == old(self).id,
            final(self)@.fields == old(self)@.fields,
            final(self)@.group_symbol == old(self)@.group_symbol,
            final(self)@.encryption_method == old(self)@.encryption_method,
    {
        self.flags.tag_alter_preservation = tag_alter_preservation;
    }

    /// Returns the frame's "file alter preservation" flag: whether parsers
    /// that do not know the frame should drop it when the audio is altered.
    pub fn file_alter_preservation(&self) -> (r: bool)
        ensures
            r == self@.flags.file_alter_preservation,
    {
        self.flags.file_alter_preservation
    }

    /// Sets the frame's "file alter preservation" flag.
    pub fn set_file_alter_preservation(&mut self, file_alter_preservation: bool)
        ensures
            final(self)@.flags == (FrameFlags { file_alter_preservation, ..old(self)@.flags }),
            final(self).id == old(self).id,
            final(self)@.fields == old(self)@.fields,
            final(self)@.group_symbol == old(self)@.group_symbol,
            final(self)@.encryption_method == old(self)@.encryption_method,
    {
        self.flags.file_alter_preservation = file_alter_preservation;
    }

    /// Returns the frame's "read only" flag.
    pub fn read_only(&self) -> (r: bool)
        ensures
            r == self@.flags.read_only,
    {
        self.flags.read_only
    }

    /// Sets the frame's "read only" flag.
    pub fn set_read_only(&mut self, read_only: bool)
        ensures
            final(self)@.flags == (FrameFlags { read_only, ..old(self)@.flags }),
            final(self).id == old(self).id,
            final(self)@.fields == old(self)@.fields,
            final(self)@.group_symbol == old(self)@.group_symbol,
            final(self)@.encryption_method == old(self)@.encryption_method,
    {
        self.flags.read_only = read_only;
    }

    /// Returns the version of the tag which this frame belongs to.
    pub fn version(&self) -> (r: Version)
        ensures
            r == id_version(self.id),
    {
        self.id.version()
    }

    /// Returns a string describing the frame type.
    pub fn description(&self) -> (r: &'static str)
        ensures
            r == description_spec(self.id),
    {
        frame_description(self.id)
    }

    /// Creates the body bytes of the frame's fields, before any compression.
    pub fn fields_to_bytes(&self) -> (r: Vec<u8>)
        ensures
            r@ == fields_bytes(self@.fields),
    {
        encode_fields(&self.fields)
    }

    /// Creates the body bytes of the frame's fields, before any compression.
    pub fn content_to_bytes(&self) -> (r: Vec<u8>)
        ensures
            r@ == fields_bytes(self@.fields),
    {
        encode_fields(&self.fields)
    }

    /// Parses a frame body into fields under the frame's layout, inflating it
    /// first if the frame is compressed.
    pub fn parse_fields(&self, data: &[u8]) -> (r: Result<Vec<Field>, Error>)
        ensures
            !self@.flags.compression ==> (r is Ok <==> decode_fields_spec(self.id, data@) is Some),
            !self@.flags.compression ==> (r matches Ok(fs) ==> decode_fields_spec(self.id, data@) == Some(fields_view(fs@))),
            self@.flags.compression ==> (r is Ok <==> (inflate_of(data@) matches Some(b) && decode_fields_spec(self.id, b) is Some)),
            self@.flags.compression ==> (r matches Ok(fs) ==> (inflate_of(data@) matches Some(b) && decode_fields_spec(self.id, b) == Some(fields_view(fs@)))),
    {
        if self.flags.compression {
            match zlib_decompress(data) {
                Some(body) => decode_fields(self.id, body.as_slice()),
                None => Err(Error::new(ErrorKind::InvalidTag, "compressed frame body does not inflate")),
            }
        } else {
            decode_fields(self.id, data)
        }
    }
}

/// The length of a frame header: six bytes in ID3v2.2, ten later.
pub open spec fn header_len(v: Version) -> nat {
    if v == Version::V2 { 6 } else { 10 }
}

/// The length of a frame identifier: three bytes in ID3v2.2, four later.
pub open spec fn id_len(v: Version) -> nat {
    if v == Version::V2 { 3 } else { 4 }
}

/// The size field of the frame header at `pos`.
pub open spec fn size_at(data: Seq<u8>, pos: int, v: Version) -> nat {
    if v == Version::V2 {
        ((data[pos + 3] as nat) * 65536 + (data[pos + 4] as nat) * 256 + data[pos + 5] as nat)
    } else if v == Version::V3 {
        be_u32_spec(data[pos + 4], data[pos + 5], data[pos + 6], data[pos + 7]) as nat
    } else {
        unsynchsafe_spec(be_u32_spec(data[pos + 4], data[pos + 5], data[pos + 6], data[pos + 7])) as nat
    }
}

/// The flags of the frame header at `pos`.
pub open spec fn flags_at(data: Seq<u8>, pos: int, v: Version) -> FrameFlags {
    if v == Version::V2 {
        no_flags()
    } else if v == Version::V3 {
        flags_of_word_v3(((data[pos + 8] as u16) << 8 | data[pos + 9] as u16) as u16)
    } else {
        flags_of_word_v4(((data[pos + 8] as u16) << 8 | data[pos + 9] as u16) as u16)
    }
}

/// The length of the extra header bytes that a frame's flags call for.
pub open spec fn extras_len(f: FrameFlags, v: Version) -> nat {
    if v == Version::V2 {
        0
    } else if v == Version::V3 {
        (if f.compression { 4nat } else { 0nat }) + (if f.encryption { 1nat } else { 0nat }) + (if f.grouping_identity { 1nat } else { 0nat })
    } else {
        (if f.grouping_identity { 1nat } else { 0nat }) + (if f.encryption { 1nat } else { 0nat }) + (if f.data_length_indicator { 4nat } else { 0nat })
    }
}

/// Where the group symbol of a frame stands, relative to the end of its header.
pub open spec fn group_offset(f: FrameFlags, v: Version) -> nat {
    if v == Version::V3 {
        (if f.compression { 4nat } else { 0nat }) + (if f.encryption { 1nat } else { 0nat })
    } else {
        0
    }
}

/// Why the frame header at `pos` is rejected, if it is: encryption is not
/// supported, and ID3v2.4 compression needs a data length indicator.
pub open spec fn header_rejected(f: FrameFlags, v: Version) -> bool {
    f.encryption || (v == Version::V4 && f.compression && !f.data_length_indicator)
}

/// The body bytes of the frame at `pos` as stored.
pub open spec fn raw_body(data: Seq<u8>, pos: int, v: Version) -> Seq<u8> {
    data.subrange(pos + header_len(v) + extras_len(flags_at(data, pos, v), v), pos + header_len(v) + size_at(data, pos, v))
}

/// The body bytes of the frame at `pos` after undoing its unsynchronization and
/// compression, or `None` where they do not inflate.
pub open spec fn body_at(data: Seq<u8>, pos: int, v: Version) -> Option<Seq<u8>> {
    let f = flags_at(data, pos, v);
    let b = if f.unsynchronization { resync_spec(raw_body(data, pos, v)) } else { raw_body(data, pos, v) };
    if f.compression && v != Version::V2 { inflate_of(b) } else { Some(b) }
}

/// The frame at `pos` reads as `f`, ending at `end`.
#[verifier::opaque]
pub open spec fn frame_read_as(data: Seq<u8>, pos: int, v: Version, end: nat, f: FrameValue) -> bool {
    let flags = flags_at(data, pos, v);
    &&& 0 <= pos < data.len()
    &&& data[pos] != 0
    &&& id_version(f.id) == v
    &&& id_name(f.id) == data.subrange(pos, pos + id_len(v))
    &&& f.flags == flags
    &&& !header_rejected(flags, v)
    &&& end == pos + header_len(v) + size_at(data, pos, v)
    &&& end <= data.len()
    &&& extras_len(flags, v) <= size_at(data, pos, v)
    &&& f.group_symbol == (if flags.grouping_identity { data[pos + header_len(v) + group_offset(flags, v)] } else { 0 })
    &&& f.encryption_method == 0
    &&& body_at(data, pos, v) matches Some(b) && decode_fields_spec(f.id, b) == Some(f.fields)
}

/// The bytes of `n` as a three-byte big-endian number.
pub open spec fn be24_spec(n: nat) -> Seq<u8> {
    seq![((n / 65536) % 256) as u8, ((n / 256) % 256) as u8, (n % 256) as u8]
}

/// The extra header bytes written for a frame.
pub open spec fn extras_spec(f: FrameValue, v: Version, content_len: nat) -> Seq<u8> {
    let fl = f.flags;
    if v == Version::V2 {
        seq![]
    } else if v == Version::V3 {
        (if fl.compression { be_bytes_spec(content_len as u32) } else { seq![] })
            + (if fl.encryption { seq![f.encryption_method] } else { seq![] })
            + (if fl.grouping_identity { seq![f.group_symbol] } else { seq![] })
    } else {
        (if fl.grouping_identity { seq![f.group_symbol] } else { seq![] })
            + (if fl.encryption { seq![f.encryption_method] } else { seq![] })
            + (if fl.data_length_indicator { be_bytes_spec(synchsafe_spec(content_len as u32)) } else { seq![] })
    }
}

/// The body bytes written for a frame: its fields, compressed if flagged, and in
/// ID3v2.4 unsynchronized if flagged.
pub open spec fn stored_body(f: FrameValue) -> Seq<u8> {
    let v = id_version(f.id);
    let content = fields_bytes(f.fields);
    let packed = if f.flags.compression && v != Version::V2 { deflate_of(content) } else { content };
    if f.flags.unsynchronization && v == Version::V4 { unsync_spec(packed) } else { packed }
}

/// The size that a frame's header states: its extras and stored body.
pub open spec fn stored_size(f: FrameValue) -> nat {
    extras_spec(f, id_version(f.id), fields_bytes(f.fields).len()).len() + stored_body(f).len()
}

/// Whether the sizes of a frame fit the fields of its header.
pub open spec fn frame_fits(f: FrameValue) -> bool {
    let v = id_version(f.id);
    &&& fields_bytes(f.fields).len() < 0x1000_0000
    &&& (v == Version::V2 ==> stored_size(f) < 0x100_0000)
    &&& (v != Version::V2 ==> stored_size(f) < 0x1000_0000)
}

/// The bytes a frame is written as: identifier, size, flags, extras and body.
pub open spec fn frame_bytes(f: FrameValue) -> Seq<u8> {
    let v = id_version(f.id);
    let size = stored_size(f);
    let extras = extras_spec(f, v, fields_bytes(f.fields).len());
    if v == Version::V2 {
        id_name(f.id) + be24_spec(size) + stored_body(f)
    } else if v == Version::V3 {
        id_name(f.id) + be_bytes_spec(size as u32)
            + seq![(flags_word_v3(f.flags) >> 8) as u8, (flags_word_v3(f.flags) & 0xFF) as u8] + extras + stored_body(f)
    } else {
        id_name(f.id) + be_bytes_spec(synchsafe_spec(size as u32))
            + seq![(flags_word_v4(f.flags) >> 8) as u8, (flags_word_v4(f.flags) & 0xFF) as u8] + extras + stored_body(f)
    }
}

fn push_slice(out: &mut Vec<u8>, data: &[u8])
    ensures
        final(out)@ == old(out)@ + data@,
{
    let ghost start = out@;
    let mut i: usize = 0;
    while i < data.len()
        invariant
            i <= data@.len(),
            out@ =~= start + data@.subrange(0, i as int),
        decreases data@.len() - i,
    {
        out.push(data[i]);
        i = i + 1;
        assert(out@ =~= start + data@.subrange(0, i as int));
    }
    assert(data@.subrange(0, i as int) =~= data@);
}

fn frame_too_large() -> (r: Error)
    ensures
        r.kind is InvalidTag,
{
    Error::new(ErrorKind::InvalidTag, "frame too large for its size field")
}

impl Frame {
    /// Serializes the frame: header, extra header bytes and body. Fails exactly
    /// where the sizes do not fit the header.
    pub fn write_to(&self) -> (r: Result<Vec<u8>, Error>)
        ensures
            r is Ok <==> frame_fits(self@),
            r matches Ok(b) ==> b@ == frame_bytes(self@),
    {
        let v = self.id.version();
        let content = self.fields_to_bytes();
        if content.len() >= 0x1000_0000 {
            return Err(frame_too_large());
        }
        let content_len = content.len() as u32;
        let packed = if self.flags.compression && v != Version::V2 {
            match zlib_compress(content.as_slice()) {
                Some(c) => c,
                None => {
                    return Err(Error::new(ErrorKind::InternalIoError, "compression failed"));
                },
            }
        } else {
            content
        };
        let body = if self.flags.unsynchronization && v == Version::V4 {
            unsynchronize(packed.as_slice())
        } else {
            packed
        };
        assert(body@ == stored_body(self@));
        let mut extras: Vec<u8> = Vec::new();
        match v {
            Version::V2 => {},
            Version::V3 => {
                if self.flags.compression {
                    let b = u32_to_bytes(content_len);
                    push_slice(&mut extras, b.as_slice());
                }
                if self.flags.encryption {
                    extras.push(self.encryption_method);
                }
                if self.flags.grouping_identity {
                    extras.push(self.group_symbol);
                }
            },
            Version::V4 => {
                if self.flags.grouping_identity {
                    extras.push(self.group_symbol);
                }
                if self.flags.encryption {
                    extras.push(self.encryption_method);
                }
                if self.flags.data_length_indicator {
                    let b = u32_to_bytes(synchsafe(content_len));
                    push_slice(&mut extras, b.as_slice());
                }
            },
        }
        assert(extras@ =~= extras_spec(self@, v, fields_bytes(self@.fields).len()));
        let limit: usize = if v == Version::V2 { 0x100_0000 } else { 0x1000_0000 };
        if extras.len() >= limit || body.len() >= limit - extras.len() {
            return Err(frame_too_large());
        }
        let size = (extras.len() + body.len()) as u32;
        let mut out: Vec<u8> = Vec::new();
        push_slice(&mut out, self.id.name());
        match v {
            Version::V2 => {
                out.push(((size >> 16) & 0xFF) as u8);
                out.push(((size >> 8) & 0xFF) as u8);
                out.push((size & 0xFF) as u8);
                assert(((size >> 16) & 0xFF) as u8 == ((size as nat / 65536) % 256) as u8
                    && ((size >> 8) & 0xFF) as u8 == ((size as nat / 256) % 256) as u8
                    && (size & 0xFF) as u8 == (size as nat % 256) as u8) by (bit_vector);
            },
            Version::V3 => {
                let b = u32_to_bytes(size);
                push_slice(&mut out, b.as_slice());
                let fb = self.flags.to_bytes(3);
                push_slice(&mut out, fb.as_slice());
            },
            Version::V4 => {
                let b = u32_to_bytes(synchsafe(size));
                push_slice(&mut out, b.as_slice());
                let fb = self.flags.to_bytes(4);
                push_slice(&mut out, fb.as_slice());
            },
        }
        push_slice(&mut out, extras.as_slice());
        push_slice(&mut out, body.as_slice());
        assert(out@ =~= frame_bytes(self@));
        Ok(out)
    }

    /// Reads the frame that starts at `pos` of a frame region in a tag of the
    /// given version. Returns `None` where a zero byte stands at `pos`: the
    /// start of padding. Otherwise returns the position after the frame and
    /// the frame.
    #[verifier::rlimit(80)]
    pub fn read_from(data: &[u8], pos: usize, version: Version) -> (r: Result<Option<(usize, Frame)>, Error>)
        requires
            pos < data@.len(),
        ensures
            (r matches Ok(None)) <==> data@[pos as int] == 0,
            r matches Ok(Some((end, f))) ==> frame_read_as(data@, pos as int, version, end as nat, f@),
            data@[pos as int] != 0 && pos + header_len(version) > data@.len() ==> (r matches Err(e) && e.kind is InternalIoError),
            data@[pos as int] != 0 && pos + header_len(version) <= data@.len() && flags_at(data@, pos as int, version).encryption
                ==> (r matches Err(e) && e.kind is UnsupportedFeature),
            data@[pos as int] != 0 && pos + header_len(version) <= data@.len() && header_rejected(flags_at(data@, pos as int, version), version)
                && !flags_at(data@, pos as int, version).encryption ==> (r matches Err(e) && e.kind is InvalidTag),
            (exists|end: nat, f: FrameValue| frame_read_as(data@, pos as int, version, end, f)) ==> r matches Ok(Some(_)),
    {
        proof {
            reveal(frame_read_as);
        }
        if data[pos] == 0 {
            return Ok(None);
        }
        let n = data.len();
        let hl: usize = if version == Version::V2 { 6 } else { 10 };
        if hl > n - pos {
            return Err(Error::new(ErrorKind::InternalIoError, "unexpected end of stream"));
        }
        let id = match version {
            Version::V2 => Id::V2([data[pos], data[pos + 1], data[pos + 2]]),
            Version::V3 => Id::V3([data[pos], data[pos + 1], data[pos + 2], data[pos + 3]]),
            Version::V4 => Id::V4([data[pos], data[pos + 1], data[pos + 2], data[pos + 3]]),
        };
        assert(id_name(id) =~= data@.subrange(pos as int, pos + id_len(version)));
        let size: usize = match version {
            Version::V2 => (data[pos + 3] as usize) * 65536 + (data[pos + 4] as usize) * 256 + data[pos + 5] as usize,
            Version::V3 => (((data[pos + 4] as u32) << 24 | (data[pos + 5] as u32) << 16 | (data[pos + 6] as u32) << 8 | data[pos + 7] as u32) as u32) as usize,
            Version::V4 => unsynchsafe(((data[pos + 4] as u32) << 24 | (data[pos + 5] as u32) << 16 | (data[pos + 6] as u32) << 8 | data[pos + 7] as u32) as u32) as usize,
        };
        assert(size == size_at(data@, pos as int, version));
        let flags = match version {
            Version::V2 => FrameFlags::new(),
            _ => FrameFlags::from_word(((data[pos + 8] as u16) << 8 | data[pos + 9] as u16) as u16, version),
        };
        assert(flags == flags_at(data@, pos as int, version));
        if flags.encryption {
            return Err(Error::new(ErrorKind::UnsupportedFeature, "encryption is not supported"));
        }
        if version == Version::V4 && flags.compression && !flags.data_length_indicator {
            return Err(Error::new(ErrorKind::InvalidTag, "compression specified but data length indicator bit not set"));
        }
        let extras: usize = match version {
            Version::V2 => 0,
            Version::V3 => (if flags.compression { 4 } else { 0 }) + (if flags.grouping_identity { 1 } else { 0 }),
            Version::V4 => (if flags.grouping_identity { 1 } else { 0 }) + (if flags.data_length_indicator { 4 } else { 0 }),
        };
        assert(extras == extras_len(flags, version));
        if size > n - pos - hl || extras > size {
            return Err(Error::new(ErrorKind::InternalIoError, "unexpected end of stream"));
        }
        let end = pos + hl + size;
        let group_symbol = if flags.grouping_identity {
            let off: usize = if version == Version::V3 && flags.compression { 4 } else { 0 };
            assert(off == group_offset(flags, version));
            data[pos + hl + off]
        } else {
            0
        };
        let raw = copy_range(data, pos + hl + extras, end);
        assert(raw@ == raw_body(data@, pos as int, version));
        let unsynced = if flags.unsynchronization {
            resynchronize(raw.as_slice())
        } else {
            raw
        };
        let body = if flags.compression && version != Version::V2 {
            match zlib_decompress(unsynced.as_slice()) {
                Some(b) => b,
                None => {
                    assert(body_at(data@, pos as int, version) is None);
                    return Err(Error::new(ErrorKind::InvalidTag, "compressed frame body does not inflate"));
                },
            }
        } else {
            unsynced
        };
        assert(body_at(data@, pos as int, version) == Some(body@));
        let fields = match decode_fields(id, body.as_slice()) {
            Ok(fs) => fs,
            Err(e) => {
                return Err(e);
            },
        };
        let frame = Frame { id, flags, fields, group_symbol, encryption_method: 0 };
        proof {
            reveal(frame_read_as);
        }
        Ok(Some((end, frame)))
    }
}

/// A string re-encoded from one encoding to another; bytes that do not decode
/// stay as they are.
pub open spec fn transcode_bytes(b: Seq<u8>, from: Encoding, to: Encoding) -> Seq<u8> {
    match decode_spec(from, b) {
        Some(t) => encode_spec(t, to),
        None => b,
    }
}

/// A field with its encoded strings re-encoded from one encoding to another.
pub open spec fn transcode_field(f: FieldValue, from: Encoding, to: Encoding) -> FieldValue {
    match f {
        FieldValue::Str(b) => FieldValue::Str(transcode_bytes(b, from, to)),
        FieldValue::StrFull(b) => FieldValue::StrFull(transcode_bytes(b, from, to)),
        FieldValue::StrList(l) => FieldValue::StrList(Seq::new(l.len(), |i: int| transcode_bytes(l[i], from, to))),
        _ => f,
    }
}

/// The fields after switching the leading encoding field to `to` and
/// re-encoding the strings.
pub open spec fn transcode_fields(fs: Seq<FieldValue>, from: Encoding, to: Encoding) -> Seq<FieldValue> {
    Seq::new(fs.len(), |i: int| if i == 0 { FieldValue::TextEncoding(to) } else { transcode_field(fs[i], from, to) })
}

/// What `set_encoding` does to a frame's fields: nothing where the version
/// cannot hold the encoding, where no encoding field leads, or where the
/// encoding is already in force.
pub open spec fn set_encoding_fields(f: FrameValue, to: Encoding) -> Seq<FieldValue> {
    if encoding_compatible_spec(id_version(f.id), to) && f.fields.len() > 0 && f.fields[0] is TextEncoding
        && f.fields[0]->TextEncoding_0 != to {
        transcode_fields(f.fields, f.fields[0]->TextEncoding_0, to)
    } else {
        f.fields
    }
}

fn transcode(b: &Vec<u8>, from: Encoding, to: Encoding) -> (r: Vec<u8>)
    ensures
        r@ == transcode_bytes(b@, from, to),
{
    match string_from_encoding(from, b.as_slice()) {
        Some(t) => encode_string(t.as_str(), to),
        None => b.clone(),
    }
}

/// The text that a frame's fields carry, if they are those of a text frame
/// (an encoding and a string, or a non-empty string list) or of a URL frame.
pub open spec fn frame_text_spec(fs: Seq<FieldValue>) -> Option<Seq<char>> {
    if fs.len() == 2 && fs[0] is TextEncoding && fs[1] is Str {
        decode_spec(fs[0]->TextEncoding_0, fs[1]->Str_0)
    } else if fs.len() == 2 && fs[0] is TextEncoding && fs[1] is StrList && fs[1]->StrList_0.len() > 0 {
        decode_spec(fs[0]->TextEncoding_0, fs[1]->StrList_0[0])
    } else if fs.len() == 1 && fs[0] is Latin1 {
        decode_spec(Encoding::Latin1, fs[0]->Latin1_0)
    } else {
        None
    }
}

/// The fields re-encoded as UTF-16 where their leading encoding field names
/// UTF-8 or UTF-16BE, which versions before ID3v2.4 cannot hold.
pub open spec fn downgraded_fields(fs: Seq<FieldValue>) -> Seq<FieldValue> {
    if fs.len() > 0 && fs[0] is TextEncoding && (fs[0]->TextEncoding_0 == Encoding::UTF8 || fs[0]->TextEncoding_0 == Encoding::UTF16BE) {
        transcode_fields(fs, fs[0]->TextEncoding_0, Encoding::UTF16)
    } else {
        fs
    }
}

/// The identifier that a frame's identifier converts to under another version.
pub open spec fn converted_id(id: Id, to: Version) -> Option<Id> {
    match (id, to) {
        (Id::V2(a), Version::V2) => Some(id),
        (Id::V3(a), Version::V3) => Some(id),
        (Id::V4(a), Version::V4) => Some(id),
        (Id::V3(a), Version::V4) => Some(Id::V4(a)),
        (Id::V4(a), Version::V3) => Some(Id::V3(a)),
        (Id::V3(a), Version::V2) | (Id::V4(a), Version::V2) => match rename_34_to_2(key4(a)) {
            Some(k) => Some(Id::V2([k.0, k.1, k.2])),
            None => None,
        },
        (Id::V2(a), _) => match rename_2_to_34(key3(a)) {
            Some(k) => if to == Version::V3 { Some(Id::V3([k.0, k.1, k.2, k.3])) } else { Some(Id::V4([k.0, k.1, k.2, k.3])) },
            None => None,
        },
    }
}

/// What `convert_version` makes of a frame, or `None` where its identifier has
/// no counterpart in the target version.
pub open spec fn convert_frame_spec(f: FrameValue, to: Version) -> Option<FrameValue> {
    match converted_id(f.id, to) {
        None => None,
        Some(nid) => if id_version(f.id) == to {
            Some(f)
        } else {
            Some(FrameValue {
                id: nid,
                flags: FrameFlags {
                    data_length_indicator: f.flags.data_length_indicator || (to == Version::V4 && f.flags.compression),
                    ..f.flags
                },
                fields: if to != Version::V4 { downgraded_fields(f.fields) } else { f.fields },
                ..f
            })
        },
    }
}

impl Frame {
    /// Sets the encoding used by text data in this frame, and transcodes the
    /// contents of `String`, `StringFull` and `StringList` fields from the old
    /// encoding to the new one. Returns `false` and leaves the frame as it is
    /// if the frame's version cannot hold the encoding. Returns `true` and
    /// leaves the frame as it is if it does not begin with an encoding field.
    pub fn set_encoding(&mut self, encoding: Encoding) -> (r: bool)
        ensures
            r == encoding_compatible_spec(id_version(old(self).id), encoding),
            final(self)@.fields == set_encoding_fields(old(self)@, encoding),
            final(self).id == old(self).id,
            final(self)@.flags == old(self)@.flags,
            final(self)@.group_symbol == old(self)@.group_symbol,
            final(self)@.encryption_method == old(self)@.encryption_method,
    {
        if !self.id.version().encoding_compatible(encoding) {
            return false;
        }
        if self.fields.len() == 0 {
            return true;
        }
        let from = match &self.fields[0] {
            Field::TextEncoding(e) => *e,
            _ => {
                return true;
            },
        };
        if from == encoding {
            return true;
        }
        let ghost before = fields_view(self.fields@);
        let n = self.fields.len();
        self.fields.set(0, Field::TextEncoding(encoding));
        let mut i: usize = 1;
        while i < n
            invariant
                n == self.fields@.len(),
                before.len() == n,
                1 <= i <= n,
                before[0] == FieldValue::TextEncoding(from),
                self.id == old(self).id,
                self.flags == old(self).flags,
                self.group_symbol == old(self).group_symbol,
                self.encryption_method == old(self).encryption_method,
                forall|k: int| 0 <= k < i ==> #[trigger] fields_view(self.fields@)[k] == transcode_fields(before, from, encoding)[k],
                forall|k: int| i <= k < n ==> #[trigger] fields_view(self.fields@)[k] == before[k],
            decreases n - i,
        {
            assert(fields_view(self.fields@)[i as int] == before[i as int]);
            assert(self.fields@[i as int]@ == before[i as int]);
            let newf: Option<Field> = match &self.fields[i] {
                Field::String(b) => Some(Field::String(transcode(b, from, encoding))),
                Field::StringFull(b) => Some(Field::StringFull(transcode(b, from, encoding))),
                Field::StringList(l) => {
                    let mut out: Vec<Vec<u8>> = Vec::new();
                    let mut j: usize = 0;
                    while j < l.len()
                        invariant
                            j <= l@.len(),
                            out@.len() == j,
                            forall|k: int| 0 <= k < j ==> #[trigger] out@[k]@ == transcode_bytes(l@[k]@, from, encoding),
                        decreases l@.len() - j,
                    {
                        out.push(transcode(&l[j], from, encoding));
                        j = j + 1;
                    }
                    assert(list_view(out@) =~= Seq::new(list_view(l@).len(), |k: int| transcode_bytes(list_view(l@)[k], from, encoding)));
                    Some(Field::StringList(out))
                },
                _ => None,
            };
            let ghost prev = self.fields@;
            proof {
                if newf is Some {
                    assert(newf->0@ == transcode_field(before[i as int], from, encoding));
                } else {
                    assert(prev[i as int]@ == transcode_field(before[i as int], from, encoding));
                }
            }
            match newf {
                Some(f) => {
                    self.fields.set(i, f);
                },
                None => {},
            }
            assert forall|k: int| 0 <= k < n && k != i implies #[trigger] self.fields@[k] == prev[k] by {}
            assert(fields_view(self.fields@)[i as int] == transcode_fields(before, from, encoding)[i as int]);
            assert forall|k: int| 0 <= k < i implies #[trigger] fields_view(self.fields@)[k] == transcode_fields(before, from, encoding)[k] by {
                assert(fields_view(prev)[k] == transcode_fields(before, from, encoding)[k]);
            }
            assert forall|k: int| i < k < n implies #[trigger] fields_view(self.fields@)[k] == before[k] by {
                assert(fields_view(prev)[k] == before[k]);
            }
            i = i + 1;
        }
        assert(fields_view(self.fields@) =~= transcode_fields(before, from, encoding));
        true
    }

    /// Returns the text that the frame carries: the string of a text frame
    /// (the first item of a string list) or the URL of a URL frame.
    pub fn text(&self) -> (r: Option<String>)
        ensures
            r is Some <==> frame_text_spec(self@.fields) is Some,
            r matches Some(t) ==> frame_text_spec(self@.fields) == Some(t@),
    {
        let n = self.fields.len();
        if n == 1 {
            return match &self.fields[0] {
                Field::Latin1(b) => string_from_encoding(Encoding::Latin1, b.as_slice()),
                _ => None,
            };
        }
        if n != 2 {
            return None;
        }
        let e = match &self.fields[0] {
            Field::TextEncoding(e) => *e,
            _ => {
                return None;
            },
        };
        match &self.fields[1] {
            Field::String(b) => string_from_encoding(e, b.as_slice()),
            Field::StringList(l) => {
                if l.len() == 0 {
                    None
                } else {
                    string_from_encoding(e, l[0].as_slice())
                }
            },
            _ => None,
        }
    }

    /// Serializes the frame's fields and parses them back under the frame's
    /// layout. Returns `false` and leaves the fields as they are where the
    /// bytes do not parse.
    pub fn reparse(&mut self) -> (r: bool)
        ensures
            r == decode_fields_spec(old(self).id, fields_bytes(old(self)@.fields)) is Some,
            r ==> decode_fields_spec(old(self).id, fields_bytes(old(self)@.fields)) == Some(final(self)@.fields),
            !r ==> final(self)@.fields == old(self)@.fields,
            final(self).id == old(self).id,
            final(self)@.flags == old(self)@.flags,
            final(self)@.group_symbol == old(self)@.group_symbol,
            final(self)@.encryption_method == old(self)@.encryption_method,
    {
        let data = self.fields_to_bytes();
        match decode_fields(self.id, data.as_slice()) {
            Ok(fs) => {
                self.fields = fs;
                true
            },
            Err(_) => false,
        }
    }

    /// Converts the frame to another ID3v2 version: the identifier is renamed
    /// to the new version's, compression in ID3v2.4 gets a data length
    /// indicator, and UTF-8 or UTF-16BE text is re-encoded as UTF-16 for
    /// versions that cannot hold it. Returns `false` and leaves the frame as it
    /// is where the identifier has no counterpart in the new version.
    pub fn convert_version(&mut self, to: Version) -> (r: bool)
        ensures
            r == converted_id(old(self).id, to) is Some,
            r ==> convert_frame_spec(old(self)@, to) == Some(final(self)@),
            !r ==> final(self)@ == old(self)@,
            r ==> Some(final(self).id) == converted_id(old(self).id, to),
            r && id_version(old(self).id) == to ==> final(self)@ == old(self)@,
            r && id_version(old(self).id) != to ==> final(self)@.flags == (FrameFlags {
                data_length_indicator: old(self)@.flags.data_length_indicator || (to == Version::V4 && old(self)@.flags.compression),
                ..old(self)@.flags
            }),
            r && id_version(old(self).id) != to ==> final(self)@.fields == (
                if to != Version::V4 { downgraded_fields(old(self)@.fields) } else { old(self)@.fields }),
            r ==> final(self)@.group_symbol == old(self)@.group_symbol && final(self)@.encryption_method == old(self)@.encryption_method,
    {
        let from = self.id.version();
        if from == to {
            return true;
        }
        let new_id = match self.id {
            Id::V3(a) | Id::V4(a) => {
                match to {
                    Version::V2 => match convert_id_3_to_2(a) {
                        Some(b) => Id::V2(b),
                        None => {
                            return false;
                        },
                    },
                    Version::V3 => Id::V3(a),
                    Version::V4 => Id::V4(a),
                }
            },
            Id::V2(a) => match convert_id_2_to_3(a) {
                Some(b) => if to == Version::V3 { Id::V3(b) } else { Id::V4(b) },
                None => {
                    return false;
                },
            },
        };
        proof {
            match new_id {
                Id::V2(b) => {
                    assert(b =~= [b@[0], b@[1], b@[2]]);
                },
                Id::V3(b) => {
                    assert(b =~= [b@[0], b@[1], b@[2], b@[3]]);
                },
                Id::V4(b) => {
                    assert(b =~= [b@[0], b@[1], b@[2], b@[3]]);
                },
            }
        }
        self.id = new_id;
        if to == Version::V4 && self.flags.compression {
            self.flags.data_length_indicator = true;
        }
        if to != Version::V4 {
            match self.encoding() {
                Some(Encoding::UTF8) | Some(Encoding::UTF16BE) => {
                    self.set_encoding(Encoding::UTF16);
                },
                _ => {},
            }
        }
        true
    }
}

impl Frame {
    /// Converts the frame to another ID3v2 version; see `convert_version`.
    pub fn set_version(&mut self, to: Version) -> (r: bool)
        ensures
            r == converted_id(old(self).id, to) is Some,
            r ==> convert_frame_spec(old(self)@, to) == Some(final(self)@),
            !r ==> final(self)@ == old(self)@,
    {
        self.convert_version(to)
    }
}

/// Reading a frame is deterministic: two readings at one position agree.
pub proof fn lemma_frame_read_unique(d: Seq<u8>, pos: int, v: Version, e1: nat, f1: FrameValue, e2: nat, f2: FrameValue)
    requires
        frame_read_as(d, pos, v, e1, f1),
        frame_read_as(d, pos, v, e2, f2),
    ensures
        e1 == e2,
        f1 == f2,
{
    reveal(frame_read_as);
    match (f1.id, f2.id) {
        (Id::V2(a), Id::V2(b)) => {
            assert(a =~= b);
        },
        (Id::V3(a), Id::V3(b)) => {
            assert(a =~= b);
        },
        (Id::V4(a), Id::V4(b)) => {
            assert(a =~= b);
        },
        _ => {},
    }
    assert(f1.id == f2.id);
}

} // verus!
