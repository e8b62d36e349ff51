use id3::encoding::Encoding;
use id3::frame::{Frame, FrameFlags};
use id3::frameinfo::{convert_id_2_to_3, convert_id_3_to_2, frame_description, frame_format};
use id3::field::{Field, FieldType};
use id3::util;
use id3::error::ErrorKind;
use id3::version::{Id, Version};

#[test]
fn mod_test_frame_flags_to_bytes_v3() {
    let mut flags = FrameFlags::new();
    assert_eq!(flags.to_bytes(0x3), [0x0, 0x0]);
    flags.tag_alter_preservation = true;
    flags.file_alter_preservation = true;
    flags.read_only = true;
    flags.compression = true;
    flags.encryption = true;
    flags.grouping_identity = true;
    assert_eq!(flags.to_bytes(0x3), [0xE0, 0xE0]);
}

#[test]
fn mod_test_frame_flags_to_bytes_v4() {
    let mut flags = FrameFlags::new();
    assert_eq!(flags.to_bytes(0x4), [0x0, 0x0]);
    flags.tag_alter_preservation = true;
    flags.file_alter_preservation = true;
    flags.read_only = true;
    flags.grouping_identity = true;
    flags.compression = true;
    flags.encryption = true;
    flags.unsynchronization = true;
    flags.data_length_indicator = true;
    assert_eq!(flags.to_bytes(0x4), [0x70, 0x4F]);
}

#[test]
fn mod_test_to_bytes_v2() {
    let id = *b"TAL";
    let text = "album";
    let encoding = Encoding::UTF16;

    let mut frame = Frame::new(Id::V2(id));

    let mut data = Vec::new();
    data.push(encoding.as_byte());
    data.extend(util::string_to_utf16(text).into_iter());

    frame.fields = frame.parse_fields(&*data).unwrap();

    let mut bytes = Vec::new();
    bytes.extend_from_slice(&id);
    bytes.extend_from_slice(&util::u32_to_bytes(data.len() as u32)[1..]);
    bytes.extend(data.into_iter());

    assert_eq!(frame.write_to().unwrap(), bytes);
}

#[test]
fn mod_test_to_bytes_v3() {
    let id = *b"TALB";
    let text = "album";
    let encoding = Encoding::UTF16;

    let mut frame = Frame::new(Id::V3(id));

    let mut data = Vec::new();
    data.push(encoding.as_byte());
    data.extend(util::string_to_utf16(text).into_iter());

    frame.fields = frame.parse_fields(&*data).unwrap();

    let mut bytes = Vec::new();
    bytes.extend_from_slice(&id);
    bytes.extend_from_slice(&util::u32_to_bytes(data.len() as u32));
    bytes.extend_from_slice(&[0x00, 0x00]);
    bytes.extend(data.into_iter());

    assert_eq!(frame.write_to().unwrap(), bytes);
}

#[test]
fn mod_test_to_bytes_v4() {
    let id = *b"TALB";
    let text = "album";
    let encoding = Encoding::UTF16;

    let mut frame = Frame::new(Id::V4(id));

    frame.set_tag_alter_preservation(true);
    frame.set_file_alter_preservation(true);

    let mut data = Vec::new();
    data.push(encoding.as_byte());
    data.extend(util::string_to_utf16(text).into_iter());

    frame.fields = frame.parse_fields(&*data).unwrap();

    let mut bytes = Vec::new();
    bytes.extend_from_slice(&id);
    bytes.extend_from_slice(&util::u32_to_bytes(util::synchsafe(data.len() as u32)));
    bytes.extend_from_slice(&[0x60, 0x00]);
    bytes.extend(data.into_iter());

    assert_eq!(frame.write_to().unwrap(), bytes);
}

#[test]
fn frame_read_back_and_padding() {
    let mut frame = Frame::new(Id::V3(*b"TIT2"));
    frame.fields = vec![Field::TextEncoding(Encoding::Latin1), Field::StringList(vec![b"song".to_vec()])];
    frame.set_read_only(true);
    let mut bytes = frame.write_to().unwrap();
    let (end, back) = Frame::read_from(&bytes, 0, Version::V3).unwrap().unwrap();
    assert_eq!(end, bytes.len());
    assert_eq!(back, frame);
    bytes.insert(0, 0);
    assert!(Frame::read_from(&bytes, 0, Version::V3).unwrap().is_none());
}

#[test]
fn compressed_frame_round_trip() {
    let mut frame = Frame::new_text_frame(Id::V4(*b"TALB"), "a fairly long album title, a fairly long album title", Encoding::UTF8).unwrap();
    frame.set_compression(true);
    assert!(frame.flags().data_length_indicator);
    let bytes = frame.write_to().unwrap();
    let (_, back) = Frame::read_from(&bytes, 0, Version::V4).unwrap().unwrap();
    assert_eq!(back.fields, frame.fields);
    assert!(back.compression());
}

#[test]
fn encrypted_frames_are_rejected() {
    let bytes = [b'T', b'A', b'L', b'B', 0, 0, 0, 2, 0x00, 0x04, 0x03, b'x'];
    let err = Frame::read_from(&bytes, 0, Version::V4).unwrap_err();
    assert_eq!(err.kind, id3::error::ErrorKind::UnsupportedFeature);
    let bytes = [b'T', b'A', b'L', b'B', 0, 0, 0, 2, 0x00, 0x08, 0x03, b'x'];
    let err = Frame::read_from(&bytes, 0, Version::V4).unwrap_err();
    assert_eq!(err.kind, id3::error::ErrorKind::InvalidTag);
}

#[test]
fn text_and_url_frames() {
    assert!(Frame::new_text_frame(Id::V4(*b"TXXX"), "x", Encoding::UTF8).is_none());
    assert!(Frame::new_text_frame(Id::V3(*b"TALB"), "x", Encoding::UTF8).is_none());
    let f = Frame::new_text_frame(Id::V3(*b"TALB"), "x", Encoding::UTF16).unwrap();
    assert_eq!(f.fields[1], Field::String(util::string_to_utf16("x")));
    let u = Frame::new_url_frame(Id::V4(*b"WOAF"), b"http://x").unwrap();
    assert_eq!(u.text().unwrap(), "http://x");
    assert!(Frame::new_url_frame(Id::V4(*b"WXXX"), b"http://x").is_none());
    assert!(Id::V2(*b"TAL").is_text());
    assert!(!Id::V2(*b"TXX").is_text());
}

#[test]
fn set_encoding_transcodes_strings() {
    let mut f = Frame::new_text_frame(Id::V4(*b"TALB"), "Motörhead", Encoding::UTF8).unwrap();
    assert!(f.set_encoding(Encoding::UTF16BE));
    assert_eq!(f.encoding(), Some(Encoding::UTF16BE));
    assert_eq!(f.text().unwrap(), "Motörhead");
    assert_eq!(f.fields[1], Field::StringList(vec![util::string_to_utf16be("Motörhead")]));
    let mut g = Frame::new_text_frame(Id::V3(*b"TALB"), "x", Encoding::UTF16).unwrap();
    assert!(!g.set_encoding(Encoding::UTF8));
}

#[test]
fn v2_to_v3_rename() {
    let mut f = Frame::new_text_frame(Id::V2(*b"TAL"), "album", Encoding::UTF16).unwrap();
    let before = f.fields_to_bytes();
    assert!(f.convert_version(Version::V3));
    assert_eq!(f.id, Id::V3(*b"TALB"));
    assert_eq!(f.fields_to_bytes(), before);
    assert_eq!(convert_id_2_to_3(*b"PIC"), Some(*b"APIC"));
    assert_eq!(convert_id_3_to_2(*b"APIC"), Some(*b"PIC"));
    assert_eq!(convert_id_2_to_3(*b"ZZZ"), None);
    let mut g = Frame::new(Id::V4(*b"TDRC"));
    assert!(!g.convert_version(Version::V2));
}

#[test]
fn downgrade_reencodes_utf8() {
    let mut f = Frame::new_text_frame(Id::V4(*b"TALB"), "album", Encoding::UTF8).unwrap();
    assert!(f.convert_version(Version::V3));
    assert_eq!(f.encoding(), Some(Encoding::UTF16));
    assert_eq!(f.text().unwrap(), "album");
}

#[test]
fn catalog_lookups() {
    assert_eq!(frame_description(Id::V4(*b"TIT2")), "Title/songname/content description");
    assert_eq!(frame_description(Id::V4(*b"TQQQ")), "Unknown text frame");
    assert_eq!(frame_format(Id::V4(*b"COMM")).unwrap(),
        vec![FieldType::TextEncoding, FieldType::Language, FieldType::String, FieldType::StringFull]);
    assert_eq!(frame_format(Id::V2(*b"ZZZ")).unwrap(), vec![FieldType::BinaryData]);
    assert_eq!(Frame::new(Id::V3(*b"EQUA")).description(), "Equalization");
}

#[test]
fn reparse_keeps_fields() {
    let mut f = Frame::new_text_frame(Id::V2(*b"TT2"), "title", Encoding::Latin1).unwrap();
    let before = f.fields.clone();
    assert!(f.reparse());
    assert_eq!(f.fields, before);
    let mut g = Frame::new_text_frame(Id::V3(*b"TIT2"), "title", Encoding::Latin1).unwrap();
    assert!(g.reparse());
    assert_eq!(g.fields[1], Field::StringList(vec![b"title".to_vec()]));
}

#[test]
fn set_encoding_without_encoding_field() {
    let mut f = Frame::new_url_frame(Id::V4(*b"WOAF"), b"http://x").unwrap();
    let before = f.clone();
    assert!(f.set_encoding(Encoding::UTF16));
    assert_eq!(f, before);
}

#[test]
fn error_kinds() {
    let short = [b'T', b'A', b'L'];
    assert_eq!(Frame::read_from(&short, 0, Version::V4).unwrap_err().kind, ErrorKind::InternalIoError);
    let no_delim = id3::frame::decode_fields(Id::V4(*b"TXXX"), b"\x03key");
    assert_eq!(no_delim.unwrap_err().kind, ErrorKind::InvalidTag);
    assert_eq!(id3::id3v1::read_tag(b"TAG").unwrap_err().kind, ErrorKind::InternalIoError);
}

#[test]
fn list_not_last_has_no_trailing_delimiter() {
    let mut out = Vec::new();
    Field::StringList(vec![b"a".to_vec(), b"b".to_vec()]).serialize(&mut out, Encoding::UTF8, false);
    assert_eq!(out, b"a\x00b".to_vec());
}
