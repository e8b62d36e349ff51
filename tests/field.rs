use id3::bignum::BigNum;
use id3::encoding::Encoding;
use id3::field::{Field, FieldType};
use id3::frame::{decode_fields, Frame};
use id3::util;
use id3::version::Id;

#[test]
fn test_bignum_create() {
    assert_eq!(BigNum::new(vec![]), BigNum::new(vec![0]));
    assert_eq!(BigNum::new(vec![0, 0, 0, 0]), BigNum::new(vec![0]));
    assert_eq!(BigNum::new(vec![0]), BigNum::new(vec![0]));
}

#[test]
fn test_bignum_parse() {
    assert_eq!(BigNum::new(vec![0]), "".parse::<BigNum>().unwrap());
    assert_eq!(BigNum::new(vec![0]), "0".parse::<BigNum>().unwrap());
    assert_eq!(BigNum::new(vec![0]), "00".parse::<BigNum>().unwrap());
    assert_eq!(BigNum::new(vec![1]), "1".parse::<BigNum>().unwrap());
    assert_eq!(BigNum::new(vec![10]), "10".parse::<BigNum>().unwrap());
    assert_eq!(BigNum::new(vec![95]), "95".parse::<BigNum>().unwrap());
    assert_eq!(BigNum::new(vec![99]), "99".parse::<BigNum>().unwrap());
    assert_eq!(BigNum::new(vec![23, 1]), "123".parse::<BigNum>().unwrap());
    assert_eq!(BigNum::new(vec![67, 45, 23, 1]), "1234567".parse::<BigNum>().unwrap());
    assert_eq!(BigNum::new(vec![67, 45, 23]), "0234567".parse::<BigNum>().unwrap());
}

#[test]
fn bignum_rejects_non_digits() {
    assert!("12a".parse::<BigNum>().is_err());
    assert!(BigNum::from_decimal("-1").is_none());
}

#[test]
fn test_bignum_print() {
    assert_eq!(BigNum::new(vec![0]).to_string(), "0");
    assert_eq!(BigNum::new(vec![99]).to_string(), "99");
    assert_eq!(BigNum::new(vec![04, 32]).to_string(), "3204");
    assert_eq!(BigNum::new(vec![00, 1]).to_string(), "100");
    assert_eq!(BigNum::new(vec![00, 10]).to_string(), "1000");
    assert_eq!(BigNum::new(vec![00, 00, 1]).to_string(), "10000");
    assert_eq!(BigNum::new(vec![00, 00, 1, 00]).to_string(), "10000");
}

#[test]
fn test_bignum_incr() {
    let mut a = BigNum::new(vec![0]);
    assert_eq!(a, BigNum::new(vec![0]));

    a.incr();
    assert_eq!(a, BigNum::new(vec![1]));

    a.incr();
    assert_eq!(a, BigNum::new(vec![2]));

    let mut b = BigNum::new(vec![99]);
    b.incr();
    assert_eq!(b, BigNum::new(vec![00, 1]));
}

#[test]
fn test_bignum_roundtrip() {
    let mut x = "0009954".parse::<BigNum>().unwrap();
    assert_eq!(x.to_string(), "9954");
    for i in 1..50 {
        x.incr();
        assert_eq!(x.to_string(), (9954 + i).to_string());
    }
}

#[test]
fn field_type_names() {
    assert_eq!(FieldType::StringList.as_char(), 's');
    assert_eq!(FieldType::Int32Plus.name(), "counter");
    assert!(FieldType::Latin1List.is_list());
    assert_eq!(FieldType::Latin1Full.get_encoding(), Some(Encoding::Latin1));
    assert_eq!(FieldType::String.get_encoding(), None);
}

fn bytes_for_encoding(text: &str, encoding: Encoding) -> Vec<u8> {
    match encoding {
        Encoding::Latin1 | Encoding::UTF8 => text.as_bytes().to_vec(),
        Encoding::UTF16 => util::string_to_utf16(text),
        Encoding::UTF16BE => util::string_to_utf16be(text),
    }
}

fn delim_for_encoding(encoding: Encoding) -> Vec<u8> {
    match encoding {
        Encoding::Latin1 | Encoding::UTF8 => vec![0],
        Encoding::UTF16 | Encoding::UTF16BE => vec![0, 0],
    }
}

fn encode(fields: &[Field]) -> Vec<u8> {
    let mut frame = Frame::new(Id::V4(*b"TXXX"));
    frame.fields = fields.to_vec();
    frame.fields_to_bytes()
}

#[test]
fn test_apic_v2() {
    assert!(decode_fields(Id::V2(*b"PIC"), &[]).is_err());

    let format_map = vec![("image/jpeg", b"JPG"), ("image/png", b"PNG")];

    for (_mime_type, format) in format_map.into_iter() {
        for description in vec!["", "description"].into_iter() {
            let picture_type = 3u8;
            let picture_data = vec![0xF9, 0x90, 0x3A, 0x02, 0xBD];

            for encoding in vec![Encoding::Latin1, Encoding::UTF16].into_iter() {
                let mut data = Vec::new();
                data.push(encoding.as_byte());
                data.extend_from_slice(format);
                data.push(picture_type);
                data.extend(bytes_for_encoding(description, encoding).into_iter());
                data.extend(delim_for_encoding(encoding).into_iter());
                data.extend_from_slice(&picture_data);

                let fields = vec![
                    Field::TextEncoding(encoding),
                    Field::Int24(format[0], format[1], format[2]),
                    Field::Int8(picture_type),
                    Field::String(bytes_for_encoding(description, encoding)),
                    Field::BinaryData(picture_data.clone()),
                ];

                assert_eq!(decode_fields(Id::V2(*b"PIC"), &data).unwrap(), fields);
                assert_eq!(encode(&fields), data);
            }
        }
    }
}

#[test]
fn test_apic_v3() {
    assert!(decode_fields(Id::V3(*b"APIC"), &[]).is_err());

    for mime_type in vec!["", "image/jpeg"].into_iter() {
        for description in vec!["", "description"].into_iter() {
            let picture_type = 3u8;
            let picture_data = vec![0xF9, 0x90, 0x3A, 0x02, 0xBD];

            for encoding in vec![Encoding::UTF8, Encoding::UTF16, Encoding::UTF16BE].into_iter() {
                let mut data = Vec::new();
                data.push(encoding.as_byte());
                data.extend_from_slice(mime_type.as_bytes());
                data.push(0x0);
                data.push(picture_type);
                data.extend(bytes_for_encoding(description, encoding).into_iter());
                data.extend(delim_for_encoding(encoding).into_iter());
                data.extend_from_slice(&picture_data);

                let fields = vec![
                    Field::TextEncoding(encoding),
                    Field::Latin1(mime_type.as_bytes().to_vec()),
                    Field::Int8(picture_type),
                    Field::String(bytes_for_encoding(description, encoding)),
                    Field::BinaryData(picture_data.clone()),
                ];

                assert_eq!(decode_fields(Id::V3(*b"APIC"), &data).unwrap(), fields);
                assert_eq!(encode(&fields), data);
            }
        }
    }
}

#[test]
fn test_comm() {
    assert!(decode_fields(Id::V4(*b"COMM"), &[]).is_err());

    for description in vec!["", "description"].into_iter() {
        for comment in vec!["", "comment"].into_iter() {
            for encoding in vec![Encoding::UTF8, Encoding::UTF16, Encoding::UTF16BE].into_iter() {
                let mut data = Vec::new();
                data.push(encoding.as_byte());
                data.extend_from_slice(b"ENG");
                data.extend(bytes_for_encoding(description, encoding).into_iter());
                data.extend(delim_for_encoding(encoding).into_iter());
                data.extend(bytes_for_encoding(comment, encoding).into_iter());

                let fields = vec![
                    Field::TextEncoding(encoding),
                    Field::Language(*b"ENG"),
                    Field::String(bytes_for_encoding(description, encoding)),
                    Field::StringFull(bytes_for_encoding(comment, encoding)),
                ];

                assert_eq!(decode_fields(Id::V4(*b"COMM"), &data).unwrap(), fields);
                assert_eq!(encode(&fields), data);
            }
        }
    }

    let description = "description";
    let comment = "comment";
    for encoding in vec![Encoding::UTF8, Encoding::UTF16, Encoding::UTF16BE].into_iter() {
        let mut data = Vec::new();
        data.push(encoding.as_byte());
        data.extend_from_slice(b"ENG");
        data.extend(bytes_for_encoding(description, encoding).into_iter());
        data.extend(bytes_for_encoding(comment, encoding).into_iter());
        assert!(decode_fields(Id::V4(*b"COMM"), &data).is_err());
    }
}

#[test]
fn test_text() {
    assert!(decode_fields(Id::V4(*b"TALB"), &[]).is_err());

    for text in vec!["", "text"].into_iter() {
        for encoding in vec![Encoding::UTF8, Encoding::UTF16, Encoding::UTF16BE].into_iter() {
            let mut data = Vec::new();
            data.push(encoding.as_byte());
            data.extend(bytes_for_encoding(text, encoding).into_iter());

            let fields = vec![
                Field::TextEncoding(encoding),
                Field::StringList(vec![bytes_for_encoding(text, encoding)]),
            ];

            assert_eq!(decode_fields(Id::V4(*b"TALB"), &data).unwrap(), fields);
            assert_eq!(encode(&fields), data);
        }
    }
}

#[test]
fn test_txxx() {
    assert!(decode_fields(Id::V4(*b"TXXX"), &[]).is_err());

    for key in vec!["", "key"].into_iter() {
        for value in vec!["", "value"].into_iter() {
            for encoding in vec![Encoding::UTF8, Encoding::UTF16, Encoding::UTF16BE].into_iter() {
                let mut data = Vec::new();
                data.push(encoding.as_byte());
                data.extend(bytes_for_encoding(key, encoding).into_iter());
                data.extend(delim_for_encoding(encoding).into_iter());
                data.extend(bytes_for_encoding(value, encoding).into_iter());

                let fields = vec![
                    Field::TextEncoding(encoding),
                    Field::String(bytes_for_encoding(key, encoding)),
                    Field::String(bytes_for_encoding(value, encoding)),
                ];

                assert_eq!(decode_fields(Id::V4(*b"TXXX"), &data).unwrap(), fields);
                assert_eq!(encode(&fields), data);
            }
        }
    }

    let key = "key";
    let value = "value";
    for encoding in vec![Encoding::UTF8, Encoding::UTF16, Encoding::UTF16BE].into_iter() {
        let mut data = Vec::new();
        data.push(encoding.as_byte());
        data.extend(bytes_for_encoding(key, encoding).into_iter());
        data.extend(bytes_for_encoding(value, encoding).into_iter());
        assert!(decode_fields(Id::V4(*b"TXXX"), &data).is_err());
    }
}

#[test]
fn test_weblink() {
    for link in vec!["", "http://www.rust-lang.org/"].into_iter() {
        let data = link.as_bytes().to_vec();

        let fields = vec![Field::Latin1(link.as_bytes().to_vec())];

        assert_eq!(decode_fields(Id::V4(*b"WOAF"), &data).unwrap(), fields);
        assert_eq!(encode(&fields), data);
    }
}

#[test]
fn test_wxxx() {
    assert!(decode_fields(Id::V4(*b"WXXX"), &[]).is_err());

    for description in vec!["", "rust"].into_iter() {
        for link in vec!["", "http://www.rust-lang.org/"].into_iter() {
            for encoding in vec![Encoding::UTF8, Encoding::UTF16, Encoding::UTF16BE].into_iter() {
                let mut data = Vec::new();
                data.push(encoding.as_byte());
                data.extend(bytes_for_encoding(description, encoding).into_iter());
                data.extend(delim_for_encoding(encoding).into_iter());
                data.extend_from_slice(link.as_bytes());

                let fields = vec![
                    Field::TextEncoding(encoding),
                    Field::String(bytes_for_encoding(description, encoding)),
                    Field::Latin1(link.as_bytes().to_vec()),
                ];

                assert_eq!(decode_fields(Id::V4(*b"WXXX"), &data).unwrap(), fields);
                assert_eq!(encode(&fields), data);
            }
        }
    }

    let description = "rust";
    let link = "http://www.rust-lang.org/";
    for encoding in vec![Encoding::UTF8, Encoding::UTF16, Encoding::UTF16BE].into_iter() {
        let mut data = Vec::new();
        data.push(encoding.as_byte());
        data.extend(bytes_for_encoding(description, encoding).into_iter());
        data.extend_from_slice(link.as_bytes());
        assert!(decode_fields(Id::V4(*b"WXXX"), &data).is_err());
    }
}

#[test]
fn test_uslt() {
    assert!(decode_fields(Id::V4(*b"USLT"), &[]).is_err());

    for description in vec!["", "description"].into_iter() {
        for text in vec!["", "lyrics"].into_iter() {
            for encoding in vec![Encoding::UTF8, Encoding::UTF16, Encoding::UTF16BE].into_iter() {
                let mut data = Vec::new();
                data.push(encoding.as_byte());
                data.extend_from_slice(b"ENG");
                data.extend(bytes_for_encoding(description, encoding).into_iter());
                data.extend(delim_for_encoding(encoding).into_iter());
                data.extend(bytes_for_encoding(text, encoding).into_iter());

                let fields = vec![
                    Field::TextEncoding(encoding),
                    Field::Language(*b"ENG"),
                    Field::String(bytes_for_encoding(description, encoding)),
                    Field::StringFull(bytes_for_encoding(text, encoding)),
                ];

                assert_eq!(decode_fields(Id::V4(*b"USLT"), &data).unwrap(), fields);
                assert_eq!(encode(&fields), data);
            }
        }
    }

    let description = "description";
    let lyrics = "lyrics";
    for encoding in vec![Encoding::UTF8, Encoding::UTF16, Encoding::UTF16BE].into_iter() {
        let mut data = Vec::new();
        data.push(encoding.as_byte());
        data.extend_from_slice(b"eng");
        data.extend(bytes_for_encoding(description, encoding).into_iter());
        data.extend(bytes_for_encoding(lyrics, encoding).into_iter());
        assert!(decode_fields(Id::V4(*b"USLT"), &data).is_err());
    }
}

#[test]
fn invalid_encoding_byte_is_rejected() {
    assert!(decode_fields(Id::V4(*b"TALB"), &[4, b'a']).is_err());
    assert!(Encoding::from_u8(4).is_none());
    assert_eq!(Encoding::from_u8(2), Some(Encoding::UTF16BE));
}

#[test]
fn string_list_splits_on_delimiter() {
    let fields = decode_fields(Id::V4(*b"TPE1"), b"\x03a\x00b").unwrap();
    assert_eq!(fields[1], Field::StringList(vec![b"a".to_vec(), b"b".to_vec()]));
    assert_eq!(encode(&fields), b"\x03a\x00b".to_vec());
}

#[test]
fn unknown_frames_use_fallback_layouts() {
    assert_eq!(decode_fields(Id::V4(*b"XYZW"), b"\x01\x02").unwrap(), vec![Field::BinaryData(vec![1, 2])]);
    assert_eq!(decode_fields(Id::V4(*b"WABC"), b"url").unwrap(), vec![Field::Latin1(b"url".to_vec())]);
    assert_eq!(decode_fields(Id::V4(*b"TABC"), b"\x00x").unwrap(),
        vec![Field::TextEncoding(Encoding::Latin1), Field::StringList(vec![b"x".to_vec()])]);
}

#[test]
fn counter_field_keeps_its_limbs() {
    let fields = decode_fields(Id::V4(*b"PCNT"), &[5, 1, 0]).unwrap();
    assert_eq!(fields, vec![Field::Int32Plus(BigNum::new(vec![5, 1]))]);
}
