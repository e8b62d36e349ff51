use id3::encoding::Encoding;
use id3::frame::Frame;
use id3::id3v2::Tag;
use id3::util;
use id3::version::{Id, Version};

const ID: Id = Id::V4(*b"TRCK");
const TRACK: u32 = 5;
const TOTAL: u32 = 10;
const INVALID: &str = "invalid";

fn check_pair(encoding: Encoding, to_bytes: fn(&str) -> Vec<u8>) {
    let mut tag = Tag::with_version(Version::V4);
    tag.set_track_enc(TRACK, encoding);
    tag.set_total_tracks_enc(TOTAL, encoding);
    let frame = tag.get_frame_by_id(ID).unwrap();

    assert_eq!(tag.track().unwrap(), TRACK);
    assert_eq!(tag.total_tracks().unwrap(), TOTAL);
    assert_eq!(frame.text().unwrap(), format!("{}/{}", TRACK, TOTAL));

    let mut data: Vec<u8> = Vec::new();
    data.push(encoding.as_byte());
    data.extend(to_bytes(&format!("{}/{}", TRACK, TOTAL)).into_iter());
    assert_eq!(frame.content_to_bytes(), data);
}

fn check_only_track(encoding: Encoding, to_bytes: fn(&str) -> Vec<u8>) {
    let mut tag = Tag::with_version(Version::V4);
    tag.set_track_enc(TRACK, encoding);
    let frame = tag.get_frame_by_id(ID).unwrap();

    assert_eq!(tag.track().unwrap(), TRACK);
    assert!(tag.total_tracks().is_none());
    assert_eq!(frame.text().unwrap(), format!("{}", TRACK));

    let mut data: Vec<u8> = Vec::new();
    data.push(encoding.as_byte());
    data.extend(to_bytes(&format!("{}", TRACK)).into_iter());
    assert_eq!(frame.content_to_bytes(), data);
}

fn check_invalid(encoding: Encoding, to_bytes: fn(&str) -> Vec<u8>) {
    let mut tag = Tag::with_version(Version::V4);

    let mut frame = Frame::new(ID);
    let mut data = Vec::new();
    data.push(encoding.as_byte());
    data.extend(to_bytes(&format!("{}/{}", INVALID, TOTAL)).into_iter());
    frame.fields = frame.parse_fields(&data).unwrap();
    tag.add_frame(frame);
    assert!(tag.track().is_none());
    assert!(tag.total_tracks().is_none());

    tag.remove_frames_by_id(ID);

    let mut frame = Frame::new(ID);
    let mut data = Vec::new();
    data.push(encoding.as_byte());
    data.extend(to_bytes(&format!("{}/{}", TRACK, INVALID)).into_iter());
    frame.fields = frame.parse_fields(&data).unwrap();
    tag.add_frame(frame);
    assert!(tag.track().is_none());
    assert!(tag.total_tracks().is_none());
}

fn utf8_bytes(s: &str) -> Vec<u8> {
    s.as_bytes().to_vec()
}

#[test]
fn track_utf8() {
    check_pair(Encoding::UTF8, utf8_bytes);
}

#[test]
fn utf8_only_track() {
    check_only_track(Encoding::UTF8, utf8_bytes);
}

#[test]
fn track_utf8_invalid() {
    check_invalid(Encoding::UTF8, utf8_bytes);
}

#[test]
fn track_utf16() {
    check_pair(Encoding::UTF16, util::string_to_utf16);
}

#[test]
fn utf16_only_track() {
    check_only_track(Encoding::UTF16, util::string_to_utf16);
}

#[test]
fn track_utf16_invalid() {
    check_invalid(Encoding::UTF16, util::string_to_utf16);
}

#[test]
fn track_utf16be() {
    check_pair(Encoding::UTF16BE, util::string_to_utf16be);
}

#[test]
fn utf16be_only_track() {
    check_only_track(Encoding::UTF16BE, util::string_to_utf16be);
}

#[test]
fn track_utf16be_invalid() {
    check_invalid(Encoding::UTF16BE, util::string_to_utf16be);
}

#[test]
fn total_without_track_uses_one() {
    let mut tag = Tag::with_version(Version::V3);
    tag.set_total_tracks_enc(12, Encoding::Latin1);
    assert_eq!(tag.track_pair(), Some((1, Some(12))));
}
