use id3::encoding::Encoding;
use id3::frame::Frame;
use id3::id3v2::Tag;
use id3::util;
use id3::version::{Id, Version};

const ID: Id = Id::V4(*b"TYER");
const YEAR: usize = 2014;
const YEARSTR: &str = "2014";
const INVALID: &str = "invalid";

fn check_year(encoding: Encoding, to_bytes: fn(&str) -> Vec<u8>) {
    let mut tag = Tag::with_version(Version::V4);

    tag.set_year_enc(YEAR, encoding);
    let frame = tag.get_frame_by_id(ID).unwrap();

    assert_eq!(tag.year().unwrap(), YEAR);
    assert_eq!(tag.text_frame_text(ID), Some(YEARSTR.to_owned()));

    let mut data: Vec<u8> = Vec::new();
    data.push(encoding.as_byte());
    data.extend(to_bytes(YEARSTR));
    assert_eq!(frame.fields_to_bytes(), data);
}

fn check_invalid(encoding: Encoding, to_bytes: fn(&str) -> Vec<u8>) {
    let mut tag = Tag::with_version(Version::V4);
    let mut frame = Frame::new(ID);
    let mut data = Vec::new();
    data.push(encoding.as_byte());
    data.extend(to_bytes(INVALID));
    frame.fields = frame.parse_fields(&data).unwrap();
    tag.add_frame(frame);
    assert!(tag.year().is_none());
}

fn utf8_bytes(s: &str) -> Vec<u8> {
    s.as_bytes().to_vec()
}

#[test]
fn year_utf8() {
    check_year(Encoding::UTF8, utf8_bytes);
}

#[test]
fn year_utf8_invalid() {
    check_invalid(Encoding::UTF8, utf8_bytes);
}

#[test]
fn year_utf16() {
    check_year(Encoding::UTF16, util::string_to_utf16);
    let mut tag = Tag::with_version(Version::V4);
    tag.set_year_enc(YEAR, Encoding::UTF16);
    let frame = tag.get_frame_by_id(ID).unwrap();
    assert_eq!(frame.fields_to_bytes(), vec![0x01, 0xFF, 0xFE, 0x32, 0x00, 0x30, 0x00, 0x31, 0x00, 0x34, 0x00]);
    tag.add_text_frame_enc(ID, "not a year", Encoding::UTF16);
    assert!(tag.year().is_none());
}

#[test]
fn year_utf16_invalid() {
    check_invalid(Encoding::UTF16, util::string_to_utf16);
}

#[test]
fn year_utf16be() {
    check_year(Encoding::UTF16BE, util::string_to_utf16be);
}

#[test]
fn year_utf16be_invalid() {
    check_invalid(Encoding::UTF16BE, util::string_to_utf16be);
}

#[test]
fn set_year_uses_latin1() {
    let mut tag = Tag::with_version(Version::V3);
    tag.set_year(1987);
    assert_eq!(tag.year(), Some(1987));
    assert_eq!(tag.get_frame_by_id(Id::V3(*b"TYER")).unwrap().fields_to_bytes(), b"\x001987".to_vec());
}
