use id3::id3v1::{self, Fields, Tag, Time, XFields, Year};

#[test]
fn test_read() {
    let buf_notag = [b'x'; 128];
    let buf_headeronly = [b'T', b'A', b'G'];
    let buf_toosmall = [b'T', b'A', b'G', 0, 4, 36];

    let tag_notag = id3v1::read_tag(&buf_notag[..]);
    assert!(tag_notag.is_ok());
    assert!(tag_notag.unwrap().is_none());

    let tag_headeronly = id3v1::read_tag(&buf_headeronly[..]);
    assert!(tag_headeronly.is_err());

    let tag_toosmall = id3v1::read_tag(&buf_toosmall[..]);
    assert!(tag_toosmall.is_err());
}

fn sample() -> Vec<u8> {
    let mut buf = Vec::new();
    buf.extend_from_slice(b"TAG");
    let mut title = b"Title".to_vec();
    title.resize(30, 0);
    buf.extend_from_slice(&title);
    buf.extend_from_slice(&[b' '; 30]);
    buf.extend_from_slice(&[0; 30]);
    buf.extend_from_slice(b"1999");
    let mut comment = b"nice".to_vec();
    comment.resize(28, 0);
    buf.extend_from_slice(&comment);
    buf.push(0);
    buf.push(7);
    buf.push(17);
    buf
}

#[test]
fn v1_tail_detection() {
    let tag = id3v1::read_tag(&sample()).unwrap().unwrap();
    assert_eq!(tag.title, b"Title".to_vec());
    assert_eq!(tag.artist, vec![b' '; 30]);
    assert!(tag.album.is_empty());
    assert_eq!(tag.year.value(), 1999);
    assert_eq!(tag.comment, b"nice".to_vec());
    assert_eq!(tag.track, 7);
    assert_eq!(tag.genre, 17);
    assert!(id3v1::probe_tag(&sample()));
}

#[test]
fn v1_write_round_trip() {
    let tag = id3v1::read_tag(&sample()).unwrap().unwrap();
    let bytes = tag.write(true);
    assert_eq!(bytes.len(), 128);
    assert_eq!(id3v1::read_tag(&bytes).unwrap().unwrap(), tag);
}

#[test]
fn extended_tag_merges() {
    let mut tag = Tag::new();
    tag.title = b"A very long title that does not fit thirty bytes".to_vec();
    tag.speed = 2;
    tag.start_time = Time::new(75).unwrap();
    assert!(tag.has_extended_data());
    let mut file = tag.write_extended();
    assert_eq!(file.len(), 227);
    file.extend(tag.write(false));
    let back = id3v1::read(&file).unwrap().unwrap();
    assert_eq!(back.title, tag.title);
    assert_eq!(back.speed, 2);
    assert_eq!(back.start_time.seconds(), 75);
}

#[test]
fn time_and_year_parsing() {
    assert_eq!(id3v1::parse_time(b"001:15").seconds(), 75);
    assert_eq!(id3v1::parse_time(b" 12:05").seconds(), 3725);
    assert_eq!(id3v1::parse_time(b"1x:05").seconds(), 0);
    assert_eq!(id3v1::parse_time(b"999:99").seconds(), 60039);
    assert_eq!(id3v1::parse_year(b"2014").value(), 2014);
    assert_eq!(id3v1::parse_year(b"20a4").value(), 0);
    assert!(Year::new(10000).is_none());
    assert!(Time::new(60040).is_none());
    assert_eq!(id3v1::truncate_zeros(b"ab\0\0"), b"ab");
    assert_eq!(Fields::Year.length(), 4);
    assert_eq!(XFields::XGenre.length(), 30);
    assert!(id3v1::probe_xtag(b"TAG+"));
}
