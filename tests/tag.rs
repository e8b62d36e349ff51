use id3::encoding::Encoding;
use id3::field::Field;
use id3::frame::Frame;
use id3::id3v2::{self, Tag, TagFlag, TagFlags};
use id3::version::{Id, Version};
use id3::FileTags;

#[test]
fn filetags_test_flags_to_bytes() {
    let mut flags = TagFlags::new(Version::V4);
    assert_eq!(flags.to_byte(), 0x0);
    flags.set(TagFlag::Unsynchronization, true);
    flags.set(TagFlag::ExtendedHeader, true);
    flags.set(TagFlag::Experimental, true);
    flags.set(TagFlag::Footer, true);
    assert_eq!(flags.to_byte(), 0xF0);
}

#[test]
fn tag_test_flags_to_bytes() {
    let mut flags = TagFlags::new(Version::V4);
    assert_eq!(flags.to_byte(), 0x0);
    flags.set(TagFlag::Unsynchronization, true);
    flags.set(TagFlag::ExtendedHeader, true);
    flags.set(TagFlag::Experimental, true);
    flags.set(TagFlag::Footer, true);
    assert_eq!(flags.to_byte(), 0xF0);
}

#[test]
fn flags_unknown_to_version_are_ignored() {
    let mut flags = TagFlags::new(Version::V2);
    flags.set(TagFlag::Footer, true);
    assert_eq!(flags.to_byte(), 0);
    assert!(!flags.get(TagFlag::Footer));
    flags.set(TagFlag::Compression, true);
    assert!(flags.get(TagFlag::Compression));
    assert_eq!(TagFlag::Compression.value(), 0x40);
}

#[test]
fn not_id3_is_no_tag() {
    assert!(id3v2::read_tag(b"RIFF....data").unwrap().is_none());
    assert!(id3v2::read_tag(b"").unwrap().is_none());
    assert!(id3v2::read_tag(b"ID3\x04").is_err());
    assert!(id3v2::read_tag(b"ID3\x05\x00\x00\x00\x00\x00\x00").is_err());
}

#[test]
fn trck_utf8_round_trip() {
    let mut tag = Tag::with_version(Version::V4);
    tag.set_track_enc(5, Encoding::UTF8);
    tag.set_total_tracks_enc(10, Encoding::UTF8);
    let frame = tag.get_frame_by_id(Id::V4(*b"TRCK")).unwrap();
    assert_eq!(frame.fields_to_bytes(), vec![0x03, 0x35, 0x2F, 0x31, 0x30]);
    let bytes = tag.write_to(false).unwrap();
    let back = id3v2::read_tag(&bytes).unwrap().unwrap();
    let f = back.get_frame_by_id(Id::V4(*b"TRCK")).unwrap();
    assert_eq!(f.fields, vec![Field::TextEncoding(Encoding::UTF8), Field::StringList(vec![b"5/10".to_vec()])]);
    assert_eq!(back.padding_len, 2048);
    assert_eq!(back.frames, tag.frames);
}

#[test]
fn tag_round_trip_with_unsync() {
    let mut tag = Tag::with_version(Version::V3);
    let mut title = Frame::new(Id::V3(*b"TIT2"));
    title.fields = vec![Field::TextEncoding(Encoding::Latin1), Field::StringList(vec![b"\xFF\xFF title".to_vec()])];
    assert!(tag.add_frame(title));
    let mut pic = Frame::new(Id::V3(*b"APIC"));
    pic.fields = vec![Field::TextEncoding(Encoding::Latin1), Field::Latin1(b"image/png".to_vec()),
        Field::Int8(3), Field::String(b"cover".to_vec()), Field::BinaryData(vec![0xFF, 0xE0, 0xFF, 0x00, 0xFF])];
    assert!(tag.add_frame(pic));
    let bytes = tag.write_with_padding(true, 16).unwrap();
    assert_eq!(bytes[5] & 0x80, 0x80);
    let back = id3v2::read_tag(&bytes).unwrap().unwrap();
    assert_eq!(back.frames, tag.frames);
    assert_eq!(back.padding_len, 16);
}

#[test]
fn add_frame_checks_version() {
    let mut tag = Tag::new();
    assert!(!tag.add_frame(Frame::new(Id::V3(*b"TALB"))));
    assert!(tag.add_frame(Frame::new(Id::V4(*b"TALB"))));
    assert_eq!(tag.get_frames().len(), 1);
}

#[test]
fn remove_frames_by_id_keeps_others() {
    let mut tag = Tag::new();
    tag.add_frame(Frame::new(Id::V4(*b"TXXX")));
    tag.add_frame(Frame::new(Id::V4(*b"TXXX")));
    tag.add_frame(Frame::new(Id::V4(*b"USLT")));
    assert_eq!(tag.count_frames_by_id(Id::V4(*b"TXXX")), 2);
    tag.remove_frames_by_id(Id::V4(*b"TXXX"));
    assert_eq!(tag.get_frames().len(), 1);
    tag.remove_frames_by_id(Id::V4(*b"USLT"));
    assert_eq!(tag.get_frames().len(), 0);
}

#[test]
fn add_text_frame_replaces() {
    let id = Id::V4(*b"TCON");
    let mut tag = Tag::new();
    assert!(tag.add_text_frame(id, "Metal"));
    assert!(tag.add_text_frame(id, "Jazz"));
    assert_eq!(tag.get_frames().len(), 1);
    assert_eq!(tag.text_frame_text(id).unwrap(), "Jazz");
    let mut old = Tag::with_version(Version::V3);
    assert!(!old.add_text_frame(Id::V3(*b"TCON"), "Metal"));
}

#[test]
fn tal_converts_to_talb() {
    let mut tag = Tag::with_version(Version::V2);
    tag.add_text_frame_enc(Id::V2(*b"TAL"), "album", Encoding::UTF16);
    tag.add_frame(Frame::new(Id::V2(*b"ZZZ")));
    let before = tag.frames[0].fields_to_bytes();
    tag.convert_version(Version::V3);
    assert_eq!(tag.version(), Version::V3);
    assert_eq!(tag.frames.len(), 1);
    assert_eq!(tag.frames[0].id, Id::V3(*b"TALB"));
    assert_eq!(tag.frames[0].fields_to_bytes(), before);
}

#[test]
fn v4_v3_v4_keeps_frames() {
    let mut tag = Tag::with_version(Version::V4);
    tag.add_text_frame_enc(Id::V4(*b"TIT2"), "title", Encoding::UTF16);
    tag.add_text_frame_enc(Id::V4(*b"TPE1"), "artist", Encoding::Latin1);
    let before = tag.frames.clone();
    tag.convert_version(Version::V3);
    tag.convert_version(Version::V4);
    assert_eq!(tag.frames, before);
}

#[test]
fn file_tags_hold_both() {
    let ft = FileTags::from_tags(None, Some(Tag::new()));
    assert!(ft.v1.is_none());
    assert_eq!(ft.v2.unwrap().version(), Version::V4);
    assert_eq!(Tag::new().default_encoding(), Encoding::UTF8);
    assert_eq!(Tag::with_version(Version::V3).default_encoding(), Encoding::UTF16);
    assert_eq!(Version::V3.to_bytes(), [3, 0]);
    assert_eq!(Version::V2.artist_id(), Id::V2(*b"TP1"));
    assert_eq!(Version::V4.comment_id(), Id::V4(*b"COMM"));
    assert!(!Version::V3.encoding_compatible(Encoding::UTF8));
    assert_eq!(Version::V4.compatible_encodings().len(), 4);
}

#[test]
fn tagged_file_rewrites_audio() {
    let mut tag = Tag::new();
    tag.add_text_frame(Id::V4(*b"TALB"), "album");
    tag.add_text_frame(Id::V4(*b"TLEN"), "1000");
    let mut file = tag.write_with_padding(false, 4).unwrap();
    file.extend_from_slice(b"AUDIO");
    let mut tf = id3::TaggedFile::from_bytes(&file).unwrap();
    assert!(id3::TaggedFile::is_candidate(&file));
    assert_eq!(&file[tf.data_start..tf.data_end], b"AUDIO");
    let out = tf.write_to(&file, false).unwrap();
    let back = id3v2::read_tag(&out).unwrap().unwrap();
    assert_eq!(back.frames.len(), 1);
    assert!(out.ends_with(b"AUDIO"));
}

#[test]
fn extended_header_round_trip() {
    let h = id3v2::ExtendedHeader { flag_data: vec![(id3v2::ExtendedFlag::TagRestrictions, vec![0x12]), (id3v2::ExtendedFlag::Unknown(6), vec![1, 2])] };
    let bytes = h.write_to(Version::V4);
    assert_eq!(bytes, vec![0, 0, 0, 8, 1, 0x10, 1, 0x12]);
    let (back, n) = id3v2::ExtendedHeader::parse(&bytes, Version::V4).unwrap();
    assert_eq!(n, 8);
    assert_eq!(back.flag_data, vec![(id3v2::ExtendedFlag::TagRestrictions, vec![0x12])]);
    assert_eq!(id3v2::ExtendedFlag::from_index(2, Version::V4), id3v2::ExtendedFlag::Crc);
    assert_eq!(id3v2::ExtendedFlag::Crc.to_index(Version::V3), 0);
}

#[test]
fn txxx_round_trip_and_removal() {
    let mut tag = Tag::new();
    tag.add_txxx_enc("key1", "value1", Encoding::UTF8);
    tag.add_txxx("key2", "value2");
    let frame = tag.get_frame_by_id(Id::V4(*b"TXXX")).unwrap();
    assert_eq!(frame.fields_to_bytes(), b"\x03key1\x00value1".to_vec());
    let bytes = tag.write_to(false).unwrap();
    let back = id3v2::read_tag(&bytes).unwrap().unwrap();
    assert_eq!(back.frames, tag.frames);
    assert_eq!(back.txxx(), vec![("key1".to_string(), "value1".to_string()), ("key2".to_string(), "value2".to_string())]);
    tag.remove_txxx(Some("key1"), None);
    assert_eq!(tag.txxx(), vec![("key2".to_string(), "value2".to_string())]);
    tag.add_txxx("key2", "other");
    assert_eq!(tag.txxx(), vec![("key2".to_string(), "other".to_string())]);
}

#[test]
fn comments_keyed_by_description() {
    let mut tag = Tag::with_version(Version::V3);
    tag.add_comment("desc", "first");
    tag.add_comment_enc(*b"deu", "other", "zweiter", Encoding::Latin1);
    tag.add_comment("desc", "replaced");
    let comments = tag.comments();
    assert_eq!(comments.len(), 2);
    assert_eq!(comments[0], ("other".to_string(), "zweiter".to_string()));
    assert_eq!(comments[1], ("desc".to_string(), "replaced".to_string()));
    let comm = tag.get_frames_by_id(Id::V3(*b"COMM"));
    assert_eq!(comm[0].fields[1], Field::Language(*b"deu"));
    assert_eq!(comm[1].fields[1], Field::Language(*b"eng"));
    tag.remove_comment(None, Some("zweiter"));
    assert_eq!(tag.comments().len(), 1);
    assert_eq!(tag.get_frames_by_id(Id::V3(*b"COMM")).len(), 1);
}

#[test]
fn simple_setters() {
    let mut tag = Tag::new();
    tag.set_artist_enc("artist", Encoding::UTF8);
    tag.set_album_artist_enc("band", Encoding::UTF8);
    tag.set_album_enc("album", Encoding::UTF16);
    tag.set_title_enc("title", Encoding::UTF16BE);
    tag.set_genre_enc("Rock", Encoding::Latin1);
    tag.set_lyrics_enc(*b"eng", "", "la la", Encoding::UTF8);
    assert_eq!(tag.text_for_frame_id(Id::V4(*b"TPE1")).unwrap(), "artist");
    assert_eq!(tag.text_for_frame_id(Id::V4(*b"TPE2")).unwrap(), "band");
    assert_eq!(tag.text_for_frame_id(Id::V4(*b"TALB")).unwrap(), "album");
    assert_eq!(tag.text_for_frame_id(Id::V4(*b"TIT2")).unwrap(), "title");
    assert_eq!(tag.text_for_frame_id(Id::V4(*b"TCON")).unwrap(), "Rock");
    let lyrics = tag.get_frame_by_id(Id::V4(*b"USLT")).unwrap();
    assert_eq!(lyrics.fields[3], Field::StringFull(b"la la".to_vec()));
    tag.set_version(Version::V3);
    assert_eq!(tag.version(), Version::V3);
    assert_eq!(tag.text_for_frame_id(Id::V3(*b"TPE1")).unwrap(), "artist");
    let mut f = Frame::new(Id::V3(*b"TALB"));
    assert!(f.set_version(Version::V2));
    assert_eq!(f.id, Id::V2(*b"TAL"));
}

#[test]
fn pictures_keyed_by_type() {
    let mut tag = Tag::with_version(Version::V3);
    tag.add_picture("image/png", 3, &[1, 2, 3]);
    tag.add_picture_enc("image/jpeg", 4, "back", &[4, 5], Encoding::UTF16);
    tag.add_picture("image/gif", 3, &[9]);
    let pics = tag.pictures();
    assert_eq!(pics.len(), 2);
    assert_eq!(pics[0].picture_type, 4);
    assert_eq!(pics[0].description, "back");
    assert_eq!(pics[1].mime_type, "image/gif");
    assert_eq!(pics[1].data, vec![9]);
    tag.remove_picture_type(4);
    assert_eq!(tag.pictures().len(), 1);

    let mut old = Tag::with_version(Version::V2);
    old.add_picture("JPG", 3, &[7]);
    let p = old.pictures();
    assert_eq!(p[0].mime_type, "JPG");
    assert_eq!(old.frames[0].fields[1], Field::Int24(b'J', b'P', b'G'));
}

#[test]
fn file_tags_read_write_and_skip() {
    let mut tag = Tag::new();
    tag.add_text_frame(Id::V4(*b"TALB"), "album");
    let mut file = tag.write_with_padding(false, 0).unwrap();
    let tag_len = file.len();
    file.extend_from_slice(b"AUDIO");
    assert!(FileTags::is_candidate(&file));
    assert_eq!(FileTags::skip_metadata(&file), b"AUDIO".to_vec());
    assert_eq!(FileTags::skip_metadata(b"AUDIO"), b"AUDIO".to_vec());
    let mut ft = FileTags::read_from(&file).unwrap();
    assert_eq!(ft.v2.as_ref().unwrap().frames.len(), 1);
    let out = ft.write_to().unwrap();
    assert_eq!(out.len(), tag_len + 2048);
    assert!(FileTags::read_from(b"AUDIO").is_err());
}

#[test]
fn extended_header_entries_and_reading() {
    let bytes = [0u8, 0, 0, 10, 1, 0x30, 1, 0x12, 1, 0x34];
    let (h, n) = id3v2::ExtendedHeader::parse(&bytes, Version::V4).unwrap();
    assert_eq!(n, 10);
    assert_eq!(h.flag_data, vec![(id3v2::ExtendedFlag::Crc, vec![0x12]), (id3v2::ExtendedFlag::TagRestrictions, vec![0x34])]);
    assert_eq!(id3v2::ExtendedHeader::parse(&[0, 0, 0, 7, 1, 0x40, 0], Version::V4).unwrap().0.flag_data, vec![(id3v2::ExtendedFlag::Update, vec![])]);
    assert!(id3v2::ExtendedHeader::parse(&[0, 0, 0, 6, 1, 0x40], Version::V4).is_err());
    assert!(id3v2::ExtendedHeader::parse(&[0, 0, 0, 7, 1, 0x20, 5], Version::V4).is_err());

    let mut tag = Tag::new();
    tag.add_text_frame(Id::V4(*b"TALB"), "album");
    tag.extended_header = Some(id3v2::ExtendedHeader { flag_data: vec![(id3v2::ExtendedFlag::TagRestrictions, vec![0x12])] });
    let out = tag.write_with_padding(false, 8).unwrap();
    assert_eq!(out[5] & 0x40, 0x40);
    let back = id3v2::read_tag(&out).unwrap().unwrap();
    assert_eq!(back.frames, tag.frames);
    assert_eq!(back.extended_header, tag.extended_header);
    assert_eq!(back.padding_len, 8);
}

#[test]
fn tag_write_fails_only_when_too_large() {
    let mut tag = Tag::new();
    let mut f = Frame::new(Id::V4(*b"PRIV"));
    f.fields = vec![Field::Latin1(b"o".to_vec()), Field::BinaryData(vec![1; 100])];
    tag.add_frame(f);
    assert!(tag.write_to(false).is_ok());
    let mut ft = FileTags::from_tags(None, Some(tag));
    assert!(ft.write_to().is_ok());
}

#[test]
fn extended_header_written_in_flag_order() {
    let h = id3v2::ExtendedHeader { flag_data: vec![
        (id3v2::ExtendedFlag::Crc, vec![0xAA]),
        (id3v2::ExtendedFlag::Update, vec![]),
        (id3v2::ExtendedFlag::Crc, vec![0xBB]),
        (id3v2::ExtendedFlag::Unknown(5), vec![1]),
    ] };
    let bytes = h.write_to(Version::V4);
    let (back, n) = id3v2::ExtendedHeader::parse(&bytes, Version::V4).unwrap();
    assert_eq!(n, bytes.len());
    assert_eq!(back.flag_data, vec![(id3v2::ExtendedFlag::Update, vec![]), (id3v2::ExtendedFlag::Crc, vec![0xAA])]);

    let v3 = id3v2::ExtendedHeader { flag_data: vec![(id3v2::ExtendedFlag::Crc, vec![1, 2, 3, 4])] };
    let bytes = v3.write_to(Version::V3);
    assert_eq!(bytes.len(), 14);
    let (back, n) = id3v2::ExtendedHeader::parse(&bytes, Version::V3).unwrap();
    assert_eq!(n, 14);
    assert_eq!(back, v3);
    assert_eq!(Tag::new().size(), Some(10 + 2048));
}
