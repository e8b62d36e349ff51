use id3::encoding::Encoding;
use id3::util;

#[test]
fn test_synchsafe() {
    assert_eq!(681570, util::synchsafe(176994));
    assert_eq!(176994, util::unsynchsafe(681570));
}

#[test]
fn synchsafe_round_trip_and_bytes() {
    for n in [0u32, 1, 127, 128, 16383, 16384, 0x0FFF_FFFF] {
        let s = util::synchsafe(n);
        assert_eq!(s & 0x8080_8080, 0);
        assert_eq!(util::unsynchsafe(s), n);
    }
    assert_eq!(util::synchsafe(0x0FFF_FFFF), 0x7F7F_7F7F);
}

#[test]
fn test_strings() {
    let text: &str = "śốмễ śŧŗỉňĝ";

    let mut utf8 = text.as_bytes().to_vec();
    utf8.push(0);
    assert_eq!(&*util::string_from_utf8(&*utf8).unwrap(), text);

    // should use little endian BOM
    assert_eq!(&*util::string_to_utf16(text), b"\xFF\xFE\x5B\x01\xD1\x1E\x3C\x04\xC5\x1E\x20\x00\x5B\x01\x67\x01\x57\x01\xC9\x1E\x48\x01\x1D\x01");

    assert_eq!(&*util::string_to_utf16be(text), b"\x01\x5B\x1E\xD1\x04\x3C\x1E\xC5\x00\x20\x01\x5B\x01\x67\x01\x57\x1E\xC9\x01\x48\x01\x1D");
    assert_eq!(&*util::string_to_utf16le(text), b"\x5B\x01\xD1\x1E\x3C\x04\xC5\x1E\x20\x00\x5B\x01\x67\x01\x57\x01\xC9\x1E\x48\x01\x1D\x01");

    assert_eq!(&*util::string_from_encoding(Encoding::UTF16BE, b"\x01\x5B\x1E\xD1\x04\x3C\x1E\xC5\x00\x20\x01\x5B\x01\x67\x01\x57\x1E\xC9\x01\x48\x01\x1D").unwrap(), text);
    assert_eq!(&*util::string_from_utf16be(b"\x01\x5B\x1E\xD1\x04\x3C\x1E\xC5\x00\x20\x01\x5B\x01\x67\x01\x57\x1E\xC9\x01\x48\x01\x1D").unwrap(), text);

    assert_eq!(&*util::string_from_utf16le(b"\x5B\x01\xD1\x1E\x3C\x04\xC5\x1E\x20\x00\x5B\x01\x67\x01\x57\x01\xC9\x1E\x48\x01\x1D\x01").unwrap(), text);

    // big endian BOM
    assert_eq!(&*util::string_from_encoding(Encoding::UTF16, b"\xFE\xFF\x01\x5B\x1E\xD1\x04\x3C\x1E\xC5\x00\x20\x01\x5B\x01\x67\x01\x57\x1E\xC9\x01\x48\x01\x1D").unwrap(), text);
    assert_eq!(&*util::string_from_utf16(b"\xFE\xFF\x01\x5B\x1E\xD1\x04\x3C\x1E\xC5\x00\x20\x01\x5B\x01\x67\x01\x57\x1E\xC9\x01\x48\x01\x1D").unwrap(), text);

    // little endian BOM
    assert_eq!(&*util::string_from_encoding(Encoding::UTF16, b"\xFF\xFE\x5B\x01\xD1\x1E\x3C\x04\xC5\x1E\x20\x00\x5B\x01\x67\x01\x57\x01\xC9\x1E\x48\x01\x1D\x01").unwrap(), text);
    assert_eq!(&*util::string_from_utf16(b"\xFF\xFE\x5B\x01\xD1\x1E\x3C\x04\xC5\x1E\x20\x00\x5B\x01\x67\x01\x57\x01\xC9\x1E\x48\x01\x1D\x01").unwrap(), text);
}

#[test]
fn encode_decode_round_trip_each_encoding() {
    for text in ["", "album", "Motörhead", "𝄞 clef"] {
        for enc in [Encoding::UTF8, Encoding::UTF16, Encoding::UTF16BE] {
            let bytes = util::encode_string(text, enc);
            assert_eq!(util::string_from_encoding(enc, &bytes).unwrap(), text);
        }
    }
    let latin = util::encode_string("Motörhead", Encoding::Latin1);
    assert_eq!(latin, b"Mot\xF6rhead".to_vec());
    assert_eq!(util::string_from_encoding(Encoding::Latin1, &latin).unwrap(), "Motörhead");
}

#[test]
fn latin1_replaces_wide_characters() {
    assert_eq!(util::encode_string("a€b", Encoding::Latin1), b"a?b".to_vec());
}

#[test]
fn utf16_surrogate_pair_and_errors() {
    assert_eq!(util::string_to_utf16be("𝄞"), vec![0xD8, 0x34, 0xDD, 0x1E]);
    assert!(util::string_from_utf16be(&[0xD8, 0x34]).is_none());
    assert!(util::string_from_utf16be(&[0x00]).is_none());
    assert!(util::string_from_utf16(&[0xFF]).is_none());
    assert!(util::string_from_utf8(&[0xC3]).is_none());
}

#[test]
fn test_u32_to_bytes() {
    assert_eq!(util::u32_to_bytes(0x4B92DF71), [0x4B as u8, 0x92 as u8, 0xDF as u8, 0x71 as u8]);
}

#[test]
fn test_read_u16_be() {
    let buf: &[u8] = &[0x12, 0x34];
    assert_eq!(0x1234, util::read_be_u16(buf).unwrap());
}

#[test]
fn test_read_u32_be() {
    let buf: &[u8] = &[0x12, 0x34, 0x56, 0x78];
    assert_eq!(0x12345678, util::read_be_u32(buf).unwrap());
}

const TEST_PAIRS: &[(&[u8], &[u8])] = &[
    (b"\xff\xff\xe0ok", b"\xff\x00\xff\x00\xe0ok"),
    (b"dfdata\xff", b"dfdata\xff\x00"),
    (b"never", b"never"),
];

#[test]
fn test_unsync() {
    for &(raw, unsynced) in TEST_PAIRS {
        assert_eq!(&*util::unsynchronize(raw), unsynced);
    }
}

#[test]
fn test_deunsync() {
    for &(raw, unsynced) in TEST_PAIRS {
        assert_eq!(raw, &*util::resynchronize(unsynced));
    }
}

#[test]
fn test_inverse() {
    for &(raw, unsynced) in TEST_PAIRS {
        assert_eq!(&*util::resynchronize(&*util::unsynchronize(raw)), raw);
        assert_eq!(&*util::unsynchronize(&*util::resynchronize(unsynced)), unsynced);
    }
}

#[test]
fn unsync_guards_zero_after_ff() {
    assert_eq!(util::unsynchronize(&[0xFF, 0x00, 0x00]), vec![0xFF, 0x00, 0x00, 0x00]);
    assert_eq!(util::resynchronize(&[0xFF, 0x00, 0x00, 0x00]), vec![0xFF, 0x00, 0x00]);
    assert_eq!(util::unsynchronize(&[0xFF, 0x1F]), vec![0xFF, 0x1F]);
}

#[test]
fn delimiters_per_encoding() {
    assert_eq!(util::delim(Encoding::Latin1), vec![0]);
    assert_eq!(util::delim(Encoding::UTF16BE), vec![0, 0]);
    assert_eq!(util::delim_len(Encoding::UTF8), 1);
    assert_eq!(util::delim_len(Encoding::UTF16), 2);
}

#[test]
fn utf16_without_bom_is_rejected() {
    assert!(util::string_from_utf16(&[0x00, 0x41, 0x00, 0x42]).is_none());
    assert!(util::string_from_encoding(Encoding::UTF16, &[0x00, 0x41, 0x00, 0x42]).is_none());
    assert_eq!(util::string_from_utf16(&[0xFE, 0xFF, 0x00, 0x42]).unwrap(), "B");
}
