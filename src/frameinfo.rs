//! The frame format catalog: the field layout and description of each known
//! frame identifier, and the renaming between ID3v2.2 and ID3v2.3/4 identifiers.
use vstd::prelude::*;
use crate::field::FieldType;
use crate::version::{Id, id_name};

verus! {

/// The field layout of an ID3v2.2 frame, if it is known.
pub open spec fn v2_format(key: (u8, u8, u8)) -> Option<Seq<FieldType>> {
    match key {
        (66, 85, 70) => Some(seq![FieldType::Int24, FieldType::Int8, FieldType::Int32]),
        (67, 78, 84) => Some(seq![FieldType::Int32Plus]),
        (67, 79, 77) => Some(seq![FieldType::TextEncoding, FieldType::Language, FieldType::String, FieldType::String]),
        (67, 82, 65) => Some(seq![FieldType::String, FieldType::Int16, FieldType::Int16, FieldType::BinaryData]),
        (67, 82, 77) => Some(seq![FieldType::String, FieldType::String, FieldType::BinaryData]),
        (69, 84, 67) => Some(seq![FieldType::Int8, FieldType::BinaryData]),
        (69, 81, 85) => Some(seq![FieldType::Int8, FieldType::BinaryData]),
        (71, 69, 79) => Some(seq![FieldType::TextEncoding, FieldType::Latin1, FieldType::String, FieldType::String, FieldType::BinaryData]),
        (73, 80, 76) => Some(seq![FieldType::TextEncoding, FieldType::StringList]),
        (76, 78, 75) => Some(seq![FieldType::FrameIdV2, FieldType::String, FieldType::StringList]),
        (77, 67, 73) => Some(seq![FieldType::BinaryData]),
        (77, 76, 76) => Some(seq![FieldType::Int16, FieldType::Int24, FieldType::Int24, FieldType::Int8, FieldType::Int8, FieldType::BinaryData]),
        (80, 73, 67) => Some(seq![FieldType::TextEncoding, FieldType::Int24, FieldType::Int8, FieldType::String, FieldType::BinaryData]),
        (80, 79, 80) => Some(seq![FieldType::Latin1, FieldType::Int8, FieldType::Int32Plus]),
        (82, 69, 86) => Some(seq![FieldType::Int16, FieldType::Int16, FieldType::Int8, FieldType::Int8, FieldType::Int8, FieldType::Int8, FieldType::Int8, FieldType::Int8, FieldType::Int8, FieldType::Int8]),
        (82, 86, 65) => Some(seq![FieldType::Int8, FieldType::Int8, FieldType::BinaryData]),
        (83, 76, 84) => Some(seq![FieldType::TextEncoding, FieldType::Language, FieldType::Int8, FieldType::Int8, FieldType::String, FieldType::BinaryData]),
        (83, 84, 67) => Some(seq![FieldType::Int8, FieldType::BinaryData]),
        (84, 65, 76) => Some(seq![FieldType::TextEncoding, FieldType::String]),
        (84, 66, 80) => Some(seq![FieldType::TextEncoding, FieldType::String]),
        (84, 67, 77) => Some(seq![FieldType::TextEncoding, FieldType::String]),
        (84, 67, 79) => Some(seq![FieldType::TextEncoding, FieldType::String]),
        (84, 67, 82) => Some(seq![FieldType::TextEncoding, FieldType::String]),
        (84, 68, 65) => Some(seq![FieldType::TextEncoding, FieldType::String]),
        (84, 68, 89) => Some(seq![FieldType::TextEncoding, FieldType::String]),
        (84, 69, 78) => Some(seq![FieldType::TextEncoding, FieldType::String]),
        (84, 70, 84) => Some(seq![FieldType::TextEncoding, FieldType::String]),
        (84, 73, 77) => Some(seq![FieldType::TextEncoding, FieldType::String]),
        (84, 75, 69) => Some(seq![FieldType::TextEncoding, FieldType::String]),
        (84, 76, 65) => Some(seq![FieldType::TextEncoding, FieldType::String]),
        (84, 76, 69) => Some(seq![FieldType::TextEncoding, FieldType::String]),
        (84, 77, 84) => Some(seq![FieldType::TextEncoding, FieldType::String]),
        (84, 79, 65) => Some(seq![FieldType::TextEncoding, FieldType::String]),
        (84, 79, 70) => Some(seq![FieldType::TextEncoding, FieldType::String]),
        (84, 79, 76) => Some(seq![FieldType::TextEncoding, FieldType::String]),
        (84, 79, 82) => Some(seq![FieldType::TextEncoding, FieldType::String]),
        (84, 79, 84) => Some(seq![FieldType::TextEncoding, FieldType::String]),
        (84, 80, 49) => Some(seq![FieldType::TextEncoding, FieldType::String]),
        (84, 80, 50) => Some(seq![FieldType::TextEncoding, FieldType::String]),
        (84, 80, 51) => Some(seq![FieldType::TextEncoding, FieldType::String]),
        (84, 80, 52) => Some(seq![FieldType::TextEncoding, FieldType::String]),
        (84, 80, 65) => Some(seq![FieldType::TextEncoding, FieldType::String]),
        (84, 80, 66) => Some(seq![FieldType::TextEncoding, FieldType::String]),
        (84, 82, 67) => Some(seq![FieldType::TextEncoding, FieldType::String]),
        (84, 82, 68) => Some(seq![FieldType::TextEncoding, FieldType::String]),
        (84, 82, 75) => Some(seq![FieldType::TextEncoding, FieldType::String]),
        (84, 83, 73) => Some(seq![FieldType::TextEncoding, FieldType::String]),
        (84, 83, 83) => Some(seq![FieldType::TextEncoding, FieldType::String]),
        (84, 84, 49) => Some(seq![FieldType::TextEncoding, FieldType::String]),
        (84, 84, 50) => Some(seq![FieldType::TextEncoding, FieldType::String]),
        (84, 84, 51) => Some(seq![FieldType::TextEncoding, FieldType::String]),
        (84, 88, 84) => Some(seq![FieldType::TextEncoding, FieldType::String]),
        (84, 88, 88) => Some(seq![FieldType::TextEncoding, FieldType::String]),
        (84, 89, 69) => Some(seq![FieldType::TextEncoding, FieldType::String]),
        (85, 70, 73) => Some(seq![FieldType::Latin1, FieldType::BinaryData]),
        (85, 76, 84) => Some(seq![FieldType::TextEncoding, FieldType::Language, FieldType::String, FieldType::StringFull]),
        (87, 65, 70) => Some(seq![FieldType::Latin1]),
        (87, 65, 82) => Some(seq![FieldType::Latin1]),
        (87, 65, 83) => Some(seq![FieldType::Latin1]),
        (87, 67, 77) => Some(seq![FieldType::Latin1]),
        (87, 67, 80) => Some(seq![FieldType::Latin1]),
        (87, 80, 66) => Some(seq![FieldType::Latin1]),
        (87, 88, 88) => Some(seq![FieldType::Latin1]),
        _ => None,
    }
}

/// The description of an ID3v2.2 frame, if it is known.
pub open spec fn v2_desc(key: (u8, u8, u8)) -> Option<&'static str> {
    match key {
        (66, 85, 70) => Some("Recommended buffer size"),
        (67, 78, 84) => Some("Play counter"),
        (67, 79, 77) => Some("Comments"),
        (67, 82, 65) => Some("Audio encryption"),
        (67, 82, 77) => Some("Encrypted meta frame"),
        (69, 84, 67) => Some("Event timing codes"),
        (69, 81, 85) => Some("Equalization"),
        (71, 69, 79) => Some("General encapsulated object"),
        (73, 80, 76) => Some("Involved people list"),
        (76, 78, 75) => Some("Linked information"),
        (77, 67, 73) => Some("Music CD Identifier"),
        (77, 76, 76) => Some("MPEG location lookup table"),
        (80, 73, 67) => Some("Attached picture"),
        (80, 79, 80) => Some("Popularimeter"),
        (82, 69, 86) => Some("Reverb"),
        (82, 86, 65) => Some("Relative volume adjustment"),
        (83, 76, 84) => Some("Synchronized lyric/text"),
        (83, 84, 67) => Some("Synced tempo codes"),
        (84, 65, 76) => Some("Album/Movie/Debug title"),
        (84, 66, 80) => Some("BPM (Beats Per Minute)"),
        (84, 67, 77) => Some("Composer"),
        (84, 67, 79) => Some("Content type"),
        (84, 67, 82) => Some("Copyright message"),
        (84, 68, 65) => Some("Date"),
        (84, 68, 89) => Some("Playlist delay"),
        (84, 69, 78) => Some("Encoded by"),
        (84, 70, 84) => Some("File type"),
        (84, 73, 77) => Some("Time"),
        (84, 75, 69) => Some("Initial key"),
        (84, 76, 65) => Some("Language(s)"),
        (84, 76, 69) => Some("Length"),
        (84, 77, 84) => Some("Media type"),
        (84, 79, 65) => Some("Original artist(s)/performer(s)"),
        (84, 79, 70) => Some("Original filename"),
        (84, 79, 76) => Some("Original Lyricist(s)/text writer(s)"),
        (84, 79, 82) => Some("Original release year"),
        (84, 79, 84) => Some("Original album/Movie/Debug title"),
        (84, 80, 49) => Some("Lead artist(s)/Lead performer(s)/Soloist(s)/Performing group"),
        (84, 80, 50) => Some("Band/Orchestra/Accompaniment"),
        (84, 80, 51) => Some("Conductor/Performer refinement"),
        (84, 80, 52) => Some("Interpreted, remixed, or otherwise modified by"),
        (84, 80, 65) => Some("Part of a set"),
        (84, 80, 66) => Some("Publisher"),
        (84, 82, 67) => Some("ISRC (International Standard Recording Code)"),
        (84, 82, 68) => Some("Recording dates"),
        (84, 82, 75) => Some("Track number/Position in set"),
        (84, 83, 73) => Some("Size"),
        (84, 83, 83) => Some("Software/hardware and settings used for encoding"),
        (84, 84, 49) => Some("Content group description"),
        (84, 84, 50) => Some("Title/Songname/Content description"),
        (84, 84, 51) => Some("Subtitle/Description refinement"),
        (84, 88, 84) => Some("Lyricist/text writer"),
        (84, 88, 88) => Some("User defined text information frame"),
        (84, 89, 69) => Some("Year"),
        (85, 70, 73) => Some("Unique file identifier"),
        (85, 76, 84) => Some("Unsychronized lyric/text transcription"),
        (87, 65, 70) => Some("Official audio file webpage"),
        (87, 65, 82) => Some("Official artist/performer webpage"),
        (87, 65, 83) => Some("Official audio source webpage"),
        (87, 67, 77) => Some("Commercial information"),
        (87, 67, 80) => Some("Copyright/Legal information"),
        (87, 80, 66) => Some("Publishers official webpage"),
        (87, 88, 88) => Some("User defined URL link frame"),
        _ => None,
    }
}

/// Looks up `v2_format` in its table.
fn v2_format_exec(key: (u8, u8, u8)) -> (r: Option<Vec<FieldType>>)
    ensures
        r matches Some(v) ==> v2_format(key) == Some(v@),
        r is None ==> v2_format(key) is None,
{
    match key {
        (66, 85, 70) => Some(vec![FieldType::Int24, FieldType::Int8, FieldType::Int32]),
        (67, 78, 84) => Some(vec![FieldType::Int32Plus]),
        (67, 79, 77) => Some(vec![FieldType::TextEncoding, FieldType::Language, FieldType::String, FieldType::String]),
        (67, 82, 65) => Some(vec![FieldType::String, FieldType::Int16, FieldType::Int16, FieldType::BinaryData]),
        (67, 82, 77) => Some(vec![FieldType::String, FieldType::String, FieldType::BinaryData]),
        (69, 84, 67) => Some(vec![FieldType::Int8, FieldType::BinaryData]),
        (69, 81, 85) => Some(vec![FieldType::Int8, FieldType::BinaryData]),
        (71, 69, 79) => Some(vec![FieldType::TextEncoding, FieldType::Latin1, FieldType::String, FieldType::String, FieldType::BinaryData]),
        (73, 80, 76) => Some(vec![FieldType::TextEncoding, FieldType::StringList]),
        (76, 78, 75) => Some(vec![FieldType::FrameIdV2, FieldType::String, FieldType::StringList]),
        (77, 67, 73) => Some(vec![FieldType::BinaryData]),
        (77, 76, 76) => Some(vec![FieldType::Int16, FieldType::Int24, FieldType::Int24, FieldType::Int8, FieldType::Int8, FieldType::BinaryData]),
        (80, 73, 67) => Some(vec![FieldType::TextEncoding, FieldType::Int24, FieldType::Int8, FieldType::String, FieldType::BinaryData]),
        (80, 79, 80) => Some(vec![FieldType::Latin1, FieldType::Int8, FieldType::Int32Plus]),
        (82, 69, 86) => Some(vec![FieldType::Int16, FieldType::Int16, FieldType::Int8, FieldType::Int8, FieldType::Int8, FieldType::Int8, FieldType::Int8, FieldType::Int8, FieldType::Int8, FieldType::Int8]),
        (82, 86, 65) => Some(vec![FieldType::Int8, FieldType::Int8, FieldType::BinaryData]),
        (83, 76, 84) => Some(vec![FieldType::TextEncoding, FieldType::Language, FieldType::Int8, FieldType::Int8, FieldType::String, FieldType::BinaryData]),
        (83, 84, 67) => Some(vec![FieldType::Int8, FieldType::BinaryData]),
        (84, 65, 76) => Some(vec![FieldType::TextEncoding, FieldType::String]),
        (84, 66, 80) => Some(vec![FieldType::TextEncoding, FieldType::String]),
        (84, 67, 77) => Some(vec![FieldType::TextEncoding, FieldType::String]),
        (84, 67, 79) => Some(vec![FieldType::TextEncoding, FieldType::String]),
        (84, 67, 82) => Some(vec![FieldType::TextEncoding, FieldType::String]),
        (84, 68, 65) => Some(vec![FieldType::TextEncoding, FieldType::String]),
        (84, 68, 89) => Some(vec![FieldType::TextEncoding, FieldType::String]),
        (84, 69, 78) => Some(vec![FieldType::TextEncoding, FieldType::String]),
        (84, 70, 84) => Some(vec![FieldType::TextEncoding, FieldType::String]),
        (84, 73, 77) => Some(vec![FieldType::TextEncoding, FieldType::String]),
        (84, 75, 69) => Some(vec![FieldType::TextEncoding, FieldType::String]),
        (84, 76, 65) => Some(vec![FieldType::TextEncoding, FieldType::String]),
        (84, 76, 69) => Some(vec![FieldType::TextEncoding, FieldType::String]),
        (84, 77, 84) => Some(vec![FieldType::TextEncoding, FieldType::String]),
        (84, 79, 65) => Some(vec![FieldType::TextEncoding, FieldType::String]),
        (84, 79, 70) => Some(vec![FieldType::TextEncoding, FieldType::String]),
        (84, 79, 76) => Some(vec![FieldType::TextEncoding, FieldType::String]),
        (84, 79, 82) => Some(vec![FieldType::TextEncoding, FieldType::String]),
        (84, 79, 84) => Some(vec![FieldType::TextEncoding, FieldType::String]),
        (84, 80, 49) => Some(vec![FieldType::TextEncoding, FieldType::String]),
        (84, 80, 50) => Some(vec![FieldType::TextEncoding, FieldType::String]),
        (84, 80, 51) => Some(vec![FieldType::TextEncoding, FieldType::String]),
        (84, 80, 52) => Some(vec![FieldType::TextEncoding, FieldType::String]),
        (84, 80, 65) => Some(vec![FieldType::TextEncoding, FieldType::String]),
        (84, 80, 66) => Some(vec![FieldType::TextEncoding, FieldType::String]),
        (84, 82, 67) => Some(vec![FieldType::TextEncoding, FieldType::String]),
        (84, 82, 68) => Some(vec![FieldType::TextEncoding, FieldType::String]),
        (84, 82, 75) => Some(vec![FieldType::TextEncoding, FieldType::String]),
        (84, 83, 73) => Some(vec![FieldType::TextEncoding, FieldType::String]),
        (84, 83, 83) => Some(vec![FieldType::TextEncoding, FieldType::String]),
        (84, 84, 49) => Some(vec![FieldType::TextEncoding, FieldType::String]),
        (84, 84, 50) => Some(vec![FieldType::TextEncoding, FieldType::String]),
        (84, 84, 51) => Some(vec![FieldType::TextEncoding, FieldType::String]),
        (84, 88, 84) => Some(vec![FieldType::TextEncoding, FieldType::String]),
        (84, 88, 88) => Some(vec![FieldType::TextEncoding, FieldType::String]),
        (84, 89, 69) => Some(vec![FieldType::TextEncoding, FieldType::String]),
        (85, 70, 73) => Some(vec![FieldType::Latin1, FieldType::BinaryData]),
        (85, 76, 84) => Some(vec![FieldType::TextEncoding, FieldType::Language, FieldType::String, FieldType::StringFull]),
        (87, 65, 70) => Some(vec![FieldType::Latin1]),
        (87, 65, 82) => Some(vec![FieldType::Latin1]),
        (87, 65, 83) => Some(vec![FieldType::Latin1]),
        (87, 67, 77) => Some(vec![FieldType::Latin1]),
        (87, 67, 80) => Some(vec![FieldType::Latin1]),
        (87, 80, 66) => Some(vec![FieldType::Latin1]),
        (87, 88, 88) => Some(vec![FieldType::Latin1]),
        _ => None,
    }
}

/// Looks up `v2_desc` in its table.
fn v2_desc_exec(key: (u8, u8, u8)) -> (r: Option<&'static str>)
    ensures
        r == v2_desc(key),
{
    match key {
        (66, 85, 70) => Some("Recommended buffer size"),
        (67, 78, 84) => Some("Play counter"),
        (67, 79, 77) => Some("Comments"),
        (67, 82, 65) => Some("Audio encryption"),
        (67, 82, 77) => Some("Encrypted meta frame"),
        (69, 84, 67) => Some("Event timing codes"),
        (69, 81, 85) => Some("Equalization"),
        (71, 69, 79) => Some("General encapsulated object"),
        (73, 80, 76) => Some("Involved people list"),
        (76, 78, 75) => Some("Linked information"),
        (77, 67, 73) => Some("Music CD Identifier"),
        (77, 76, 76) => Some("MPEG location lookup table"),
        (80, 73, 67) => Some("Attached picture"),
        (80, 79, 80) => Some("Popularimeter"),
        (82, 69, 86) => Some("Reverb"),
        (82, 86, 65) => Some("Relative volume adjustment"),
        (83, 76, 84) => Some("Synchronized lyric/text"),
        (83, 84, 67) => Some("Synced tempo codes"),
        (84, 65, 76) => Some("Album/Movie/Debug title"),
        (84, 66, 80) => Some("BPM (Beats Per Minute)"),
        (84, 67, 77) => Some("Composer"),
        (84, 67, 79) => Some("Content type"),
        (84, 67, 82) => Some("Copyright message"),
        (84, 68, 65) => Some("Date"),
        (84, 68, 89) => Some("Playlist delay"),
        (84, 69, 78) => Some("Encoded by"),
        (84, 70, 84) => Some("File type"),
        (84, 73, 77) => Some("Time"),
        (84, 75, 69) => Some("Initial key"),
        (84, 76, 65) => Some("Language(s)"),
        (84, 76, 69) => Some("Length"),
        (84, 77, 84) => Some("Media type"),
        (84, 79, 65) => Some("Original artist(s)/performer(s)"),
        (84, 79, 70) => Some("Original filename"),
        (84, 79, 76) => Some("Original Lyricist(s)/text writer(s)"),
        (84, 79, 82) => Some("Original release year"),
        (84, 79, 84) => Some("Original album/Movie/Debug title"),
        (84, 80, 49) => Some("Lead artist(s)/Lead performer(s)/Soloist(s)/Performing group"),
        (84, 80, 50) => Some("Band/Orchestra/Accompaniment"),
        (84, 80, 51) => Some("Conductor/Performer refinement"),
        (84, 80, 52) => Some("Interpreted, remixed, or otherwise modified by"),
        (84, 80, 65) => Some("Part of a set"),
        (84, 80, 66) => Some("Publisher"),
        (84, 82, 67) => Some("ISRC (International Standard Recording Code)"),
        (84, 82, 68) => Some("Recording dates"),
        (84, 82, 75) => Some("Track number/Position in set"),
        (84, 83, 73) => Some("Size"),
        (84, 83, 83) => Some("Software/hardware and settings used for encoding"),
        (84, 84, 49) => Some("Content group description"),
        (84, 84, 50) => Some("Title/Songname/Content description"),
        (84, 84, 51) => Some("Subtitle/Description refinement"),
        (84, 88, 84) => Some("Lyricist/text writer"),
        (84, 88, 88) => Some("User defined text information frame"),
        (84, 89, 69) => Some("Year"),
        (85, 70, 73) => Some("Unique file identifier"),
        (85, 76, 84) => Some("Unsychronized lyric/text transcription"),
        (87, 65, 70) => Some("Official audio file webpage"),
        (87, 65, 82) => Some("Official artist/performer webpage"),
        (87, 65, 83) => Some("Official audio source webpage"),
        (87, 67, 77) => Some("Commercial information"),
        (87, 67, 80) => Some("Copyright/Legal information"),
        (87, 80, 66) => Some("Publishers official webpage"),
        (87, 88, 88) => Some("User defined URL link frame"),
        _ => None,
    }
}

/// The field layout of a frame of ID3v2.3 alone, if it is known.
pub open spec fn v3_only_format(key: (u8, u8, u8, u8)) -> Option<Seq<FieldType>> {
    match key {
        (69, 81, 85, 65) => Some(seq![FieldType::Int8, FieldType::BinaryData]),
        (73, 80, 76, 83) => Some(seq![FieldType::TextEncoding, FieldType::StringList]),
        (82, 86, 65, 68) => Some(seq![FieldType::Int32, FieldType::Int8, FieldType::BinaryData]),
        _ => None,
    }
}

/// The description of a frame of ID3v2.3 alone, if it is known.
pub open spec fn v3_only_desc(key: (u8, u8, u8, u8)) -> Option<&'static str> {
    match key {
        (69, 81, 85, 65) => Some("Equalization"),
        (73, 80, 76, 83) => Some("Involved people list"),
        (82, 86, 65, 68) => Some("Relative volume adjustment"),
        _ => None,
    }
}

/// Looks up `v3_only_format` in its table.
fn v3_only_format_exec(key: (u8, u8, u8, u8)) -> (r: Option<Vec<FieldType>>)
    ensures
        r matches Some(v) ==> v3_only_format(key) == Some(v@),
        r is None ==> v3_only_format(key) is None,
{
    match key {
        (69, 81, 85, 65) => Some(vec![FieldType::Int8, FieldType::BinaryData]),
        (73, 80, 76, 83) => Some(vec![FieldType::TextEncoding, FieldType::StringList]),
        (82, 86, 65, 68) => Some(vec![FieldType::Int32, FieldType::Int8, FieldType::BinaryData]),
        _ => None,
    }
}

/// Looks up `v3_only_desc` in its table.
fn v3_only_desc_exec(key: (u8, u8, u8, u8)) -> (r: Option<&'static str>)
    ensures
        r == v3_only_desc(key),
{
    match key {
        (69, 81, 85, 65) => Some("Equalization"),
        (73, 80, 76, 83) => Some("Involved people list"),
        (82, 86, 65, 68) => Some("Relative volume adjustment"),
        _ => None,
    }
}

/// The field layout of a frame of ID3v2.4 alone, if it is known.
pub open spec fn v4_only_format(key: (u8, u8, u8, u8)) -> Option<Seq<FieldType>> {
    match key {
        (65, 83, 80, 73) => Some(seq![FieldType::Int32, FieldType::Int32, FieldType::Int16, FieldType::Int8, FieldType::BinaryData]),
        (69, 81, 85, 50) => Some(seq![FieldType::Int8, FieldType::Latin1, FieldType::BinaryData]),
        (82, 86, 65, 50) => Some(seq![FieldType::Latin1, FieldType::BinaryData]),
        (83, 69, 69, 75) => Some(seq![FieldType::Int32]),
        (83, 73, 71, 78) => Some(seq![FieldType::Int8, FieldType::BinaryData]),
        (84, 68, 69, 78) => Some(seq![FieldType::TextEncoding, FieldType::StringList]),
        (84, 68, 79, 82) => Some(seq![FieldType::TextEncoding, FieldType::StringList]),
        (84, 68, 82, 67) => Some(seq![FieldType::TextEncoding, FieldType::StringList]),
        (84, 68, 82, 76) => Some(seq![FieldType::TextEncoding, FieldType::StringList]),
        (84, 68, 84, 71) => Some(seq![FieldType::TextEncoding, FieldType::StringList]),
        (84, 73, 80, 76) => Some(seq![FieldType::TextEncoding, FieldType::StringList]),
        (84, 77, 67, 76) => Some(seq![FieldType::TextEncoding, FieldType::StringList]),
        (84, 77, 79, 79) => Some(seq![FieldType::TextEncoding, FieldType::StringList]),
        (84, 80, 82, 79) => Some(seq![FieldType::TextEncoding, FieldType::StringList]),
        (84, 83, 79, 65) => Some(seq![FieldType::TextEncoding, FieldType::StringList]),
        (84, 83, 79, 80) => Some(seq![FieldType::TextEncoding, FieldType::StringList]),
        (84, 83, 79, 84) => Some(seq![FieldType::TextEncoding, FieldType::StringList]),
        (84, 83, 83, 84) => Some(seq![FieldType::TextEncoding, FieldType::StringList]),
        _ => None,
    }
}

/// The description of a frame of ID3v2.4 alone, if it is known.
pub open spec fn v4_only_desc(key: (u8, u8, u8, u8)) -> Option<&'static str> {
    match key {
        (65, 83, 80, 73) => Some("Audio seek point index"),
        (69, 81, 85, 50) => Some("Equalisation (2)"),
        (82, 86, 65, 50) => Some("Relative volume adjustment (2)"),
        (83, 69, 69, 75) => Some("Seek frame"),
        (83, 73, 71, 78) => Some("Signature frame"),
        (84, 68, 69, 78) => Some("Encoding time"),
        (84, 68, 79, 82) => Some("Original release time"),
        (84, 68, 82, 67) => Some("Recording time"),
        (84, 68, 82, 76) => Some("Release time"),
        (84, 68, 84, 71) => Some("Tagging time"),
        (84, 73, 80, 76) => Some("Involved people list"),
        (84, 77, 67, 76) => Some("Musician credits list"),
        (84, 77, 79, 79) => Some("Mood"),
        (84, 80, 82, 79) => Some("Produced notice"),
        (84, 83, 79, 65) => Some("Album sort order"),
        (84, 83, 79, 80) => Some("Performer sort order"),
        (84, 83, 79, 84) => Some("Title sort order"),
        (84, 83, 83, 84) => Some("Set subtitle"),
        _ => None,
    }
}

/// Looks up `v4_only_format` in its table.
fn v4_only_format_exec(key: (u8, u8, u8, u8)) -> (r: Option<Vec<FieldType>>)
    ensures
        r matches Some(v) ==> v4_only_format(key) == Some(v@),
        r is None ==> v4_only_format(key) is None,
{
    match key {
        (65, 83, 80, 73) => Some(vec![FieldType::Int32, FieldType::Int32, FieldType::Int16, FieldType::Int8, FieldType::BinaryData]),
        (69, 81, 85, 50) => Some(vec![FieldType::Int8, FieldType::Latin1, FieldType::BinaryData]),
        (82, 86, 65, 50) => Some(vec![FieldType::Latin1, FieldType::BinaryData]),
        (83, 69, 69, 75) => Some(vec![FieldType::Int32]),
        (83, 73, 71, 78) => Some(vec![FieldType::Int8, FieldType::BinaryData]),
        (84, 68, 69, 78) => Some(vec![FieldType::TextEncoding, FieldType::StringList]),
        (84, 68, 79, 82) => Some(vec![FieldType::TextEncoding, FieldType::StringList]),
        (84, 68, 82, 67) => Some(vec![FieldType::TextEncoding, FieldType::StringList]),
        (84, 68, 82, 76) => Some(vec![FieldType::TextEncoding, FieldType::StringList]),
        (84, 68, 84, 71) => Some(vec![FieldType::TextEncoding, FieldType::StringList]),
        (84, 73, 80, 76) => Some(vec![FieldType::TextEncoding, FieldType::StringList]),
        (84, 77, 67, 76) => Some(vec![FieldType::TextEncoding, FieldType::StringList]),
        (84, 77, 79, 79) => Some(vec![FieldType::TextEncoding, FieldType::StringList]),
        (84, 80, 82, 79) => Some(vec![FieldType::TextEncoding, FieldType::StringList]),
        (84, 83, 79, 65) => Some(vec![FieldType::TextEncoding, FieldType::StringList]),
        (84, 83, 79, 80) => Some(vec![FieldType::TextEncoding, FieldType::StringList]),
        (84, 83, 79, 84) => Some(vec![FieldType::TextEncoding, FieldType::StringList]),
        (84, 83, 83, 84) => Some(vec![FieldType::TextEncoding, FieldType::StringList]),
        _ => None,
    }
}

/// Looks up `v4_only_desc` in its table.
fn v4_only_desc_exec(key: (u8, u8, u8, u8)) -> (r: Option<&'static str>)
    ensures
        r == v4_only_desc(key),
{
    match key {
        (65, 83, 80, 73) => Some("Audio seek point index"),
        (69, 81, 85, 50) => Some("Equalisation (2)"),
        (82, 86, 65, 50) => Some("Relative volume adjustment (2)"),
        (83, 69, 69, 75) => Some("Seek frame"),
        (83, 73, 71, 78) => Some("Signature frame"),
        (84, 68, 69, 78) => Some("Encoding time"),
        (84, 68, 79, 82) => Some("Original release time"),
        (84, 68, 82, 67) => Some("Recording time"),
        (84, 68, 82, 76) => Some("Release time"),
        (84, 68, 84, 71) => Some("Tagging time"),
        (84, 73, 80, 76) => Some("Involved people list"),
        (84, 77, 67, 76) => Some("Musician credits list"),
        (84, 77, 79, 79) => Some("Mood"),
        (84, 80, 82, 79) => Some("Produced notice"),
        (84, 83, 79, 65) => Some("Album sort order"),
        (84, 83, 79, 80) => Some("Performer sort order"),
        (84, 83, 79, 84) => Some("Title sort order"),
        (84, 83, 83, 84) => Some("Set subtitle"),
        _ => None,
    }
}

/// The field layout of a frame shared by ID3v2.3 and ID3v2.4, if it is known.
pub open spec fn v34_format(key: (u8, u8, u8, u8)) -> Option<Seq<FieldType>> {
    match key {
        (65, 69, 78, 67) => Some(seq![FieldType::Latin1, FieldType::Int16, FieldType::Int16, FieldType::BinaryData]),
        (65, 80, 73, 67) => Some(seq![FieldType::TextEncoding, FieldType::Latin1, FieldType::Int8, FieldType::String, FieldType::BinaryData]),
        (67, 79, 77, 77) => Some(seq![FieldType::TextEncoding, FieldType::Language, FieldType::String, FieldType::StringFull]),
        (67, 79, 77, 82) => Some(seq![FieldType::TextEncoding, FieldType::Latin1, FieldType::Latin1, FieldType::Latin1, FieldType::Int8, FieldType::String, FieldType::String, FieldType::Latin1, FieldType::BinaryData]),
        (69, 78, 67, 82) => Some(seq![FieldType::Latin1, FieldType::Int8, FieldType::BinaryData]),
        (69, 84, 67, 79) => Some(seq![FieldType::Int8, FieldType::BinaryData]),
        (71, 69, 79, 66) => Some(seq![FieldType::TextEncoding, FieldType::Latin1, FieldType::String, FieldType::String, FieldType::BinaryData]),
        (71, 82, 73, 68) => Some(seq![FieldType::Latin1, FieldType::Int8, FieldType::BinaryData]),
        (76, 73, 78, 75) => Some(seq![FieldType::FrameIdV34, FieldType::Latin1, FieldType::Latin1List]),
        (77, 67, 68, 73) => Some(seq![FieldType::BinaryData]),
        (77, 76, 76, 84) => Some(seq![FieldType::Int16, FieldType::Int24, FieldType::Int24, FieldType::Int8, FieldType::Int8, FieldType::BinaryData]),
        (79, 87, 78, 69) => Some(seq![FieldType::TextEncoding, FieldType::Latin1, FieldType::Latin1, FieldType::String]),
        (80, 82, 73, 86) => Some(seq![FieldType::Latin1, FieldType::BinaryData]),
        (80, 67, 78, 84) => Some(seq![FieldType::Int32Plus]),
        (80, 79, 80, 77) => Some(seq![FieldType::Latin1, FieldType::Int8, FieldType::Int32Plus]),
        (80, 79, 83, 83) => Some(seq![FieldType::Int8, FieldType::BinaryData]),
        (82, 66, 85, 70) => Some(seq![FieldType::Int24, FieldType::Int8, FieldType::Int32]),
        (82, 86, 82, 66) => Some(seq![FieldType::Int16, FieldType::Int16, FieldType::Int8, FieldType::Int8, FieldType::Int8, FieldType::Int8, FieldType::Int8, FieldType::Int8, FieldType::Int8, FieldType::Int8]),
        (83, 89, 76, 84) => Some(seq![FieldType::TextEncoding, FieldType::Language, FieldType::Int8, FieldType::Int8, FieldType::String, FieldType::BinaryData]),
        (83, 89, 84, 67) => Some(seq![FieldType::Int8, FieldType::BinaryData]),
        (84, 65, 76, 66) => Some(seq![FieldType::TextEncoding, FieldType::StringList]),
        (84, 66, 80, 77) => Some(seq![FieldType::TextEncoding, FieldType::StringList]),
        (84, 67, 79, 77) => Some(seq![FieldType::TextEncoding, FieldType::StringList]),
        (84, 67, 79, 78) => Some(seq![FieldType::TextEncoding, FieldType::StringList]),
        (84, 67, 79, 80) => Some(seq![FieldType::TextEncoding, FieldType::StringList]),
        (84, 68, 65, 84) => Some(seq![FieldType::TextEncoding, FieldType::StringList]),
        (84, 68, 76, 89) => Some(seq![FieldType::TextEncoding, FieldType::StringList]),
        (84, 69, 78, 67) => Some(seq![FieldType::TextEncoding, FieldType::StringList]),
        (84, 69, 88, 84) => Some(seq![FieldType::TextEncoding, FieldType::StringList]),
        (84, 70, 76, 84) => Some(seq![FieldType::TextEncoding, FieldType::StringList]),
        (84, 73, 77, 69) => Some(seq![FieldType::TextEncoding, FieldType::StringList]),
        (84, 73, 84, 49) => Some(seq![FieldType::TextEncoding, FieldType::StringList]),
        (84, 73, 84, 50) => Some(seq![FieldType::TextEncoding, FieldType::StringList]),
        (84, 73, 84, 51) => Some(seq![FieldType::TextEncoding, FieldType::StringList]),
        (84, 75, 69, 89) => Some(seq![FieldType::TextEncoding, FieldType::StringList]),
        (84, 76, 65, 78) => Some(seq![FieldType::TextEncoding, FieldType::StringList]),
        (84, 76, 69, 78) => Some(seq![FieldType::TextEncoding, FieldType::StringList]),
        (84, 77, 69, 68) => Some(seq![FieldType::TextEncoding, FieldType::StringList]),
        (84, 79, 65, 76) => Some(seq![FieldType::TextEncoding, FieldType::StringList]),
        (84, 79, 70, 78) => Some(seq![FieldType::TextEncoding, FieldType::StringList]),
        (84, 79, 76, 89) => Some(seq![FieldType::TextEncoding, FieldType::StringList]),
        (84, 79, 80, 69) => Some(seq![FieldType::TextEncoding, FieldType::StringList]),
        (84, 79, 82, 89) => Some(seq![FieldType::TextEncoding, FieldType::StringList]),
        (84, 79, 87, 78) => Some(seq![FieldType::TextEncoding, FieldType::StringList]),
        (84, 80, 69, 49) => Some(seq![FieldType::TextEncoding, FieldType::StringList]),
        (84, 80, 69, 50) => Some(seq![FieldType::TextEncoding, FieldType::StringList]),
        (84, 80, 69, 51) => Some(seq![FieldType::TextEncoding, FieldType::StringList]),
        (84, 80, 69, 52) => Some(seq![FieldType::TextEncoding, FieldType::StringList]),
        (84, 80, 79, 83) => Some(seq![FieldType::TextEncoding, FieldType::StringList]),
        (84, 80, 85, 66) => Some(seq![FieldType::TextEncoding, FieldType::StringList]),
        (84, 82, 67, 75) => Some(seq![FieldType::TextEncoding, FieldType::StringList]),
        (84, 82, 68, 65) => Some(seq![FieldType::TextEncoding, FieldType::StringList]),
        (84, 82, 83, 78) => Some(seq![FieldType::TextEncoding, FieldType::StringList]),
        (84, 82, 83, 79) => Some(seq![FieldType::TextEncoding, FieldType::StringList]),
        (84, 83, 73, 90) => Some(seq![FieldType::TextEncoding, FieldType::StringList]),
        (84, 83, 79, 50) => Some(seq![FieldType::TextEncoding, FieldType::StringList]),
        (84, 83, 79, 67) => Some(seq![FieldType::TextEncoding, FieldType::StringList]),
        (84, 83, 82, 67) => Some(seq![FieldType::TextEncoding, FieldType::StringList]),
        (84, 83, 83, 69) => Some(seq![FieldType::TextEncoding, FieldType::StringList]),
        (84, 89, 69, 82) => Some(seq![FieldType::TextEncoding, FieldType::StringList]),
        (84, 88, 88, 88) => Some(seq![FieldType::TextEncoding, FieldType::String, FieldType::String]),
        (85, 70, 73, 68) => Some(seq![FieldType::Latin1, FieldType::BinaryData]),
        (85, 83, 69, 82) => Some(seq![FieldType::TextEncoding, FieldType::Language, FieldType::String]),
        (85, 83, 76, 84) => Some(seq![FieldType::TextEncoding, FieldType::Language, FieldType::String, FieldType::StringFull]),
        (87, 67, 79, 77) => Some(seq![FieldType::Latin1]),
        (87, 67, 79, 80) => Some(seq![FieldType::Latin1]),
        (87, 79, 65, 70) => Some(seq![FieldType::Latin1]),
        (87, 79, 65, 82) => Some(seq![FieldType::Latin1]),
        (87, 79, 65, 83) => Some(seq![FieldType::Latin1]),
        (87, 79, 82, 83) => Some(seq![FieldType::Latin1]),
        (87, 80, 65, 89) => Some(seq![FieldType::Latin1]),
        (87, 80, 85, 66) => Some(seq![FieldType::Latin1]),
        (87, 88, 88, 88) => Some(seq![FieldType::TextEncoding, FieldType::String, FieldType::Latin1]),
        (90, 79, 66, 83) => Some(seq![FieldType::BinaryData]),
        _ => None,
    }
}

/// The description of a frame shared by ID3v2.3 and ID3v2.4, if it is known.
pub open spec fn v34_desc(key: (u8, u8, u8, u8)) -> Option<&'static str> {
    match key {
        (65, 69, 78, 67) => Some("Audio encryption"),
        (65, 80, 73, 67) => Some("Attached picture"),
        (67, 79, 77, 77) => Some("Comments"),
        (67, 79, 77, 82) => Some("Commercial frame"),
        (69, 78, 67, 82) => Some("Encryption method registration"),
        (69, 84, 67, 79) => Some("Event timing codes"),
        (71, 69, 79, 66) => Some("General encapsulated object"),
        (71, 82, 73, 68) => Some("Group identification registration"),
        (76, 73, 78, 75) => Some("Linked information"),
        (77, 67, 68, 73) => Some("Music CD identifier"),
        (77, 76, 76, 84) => Some("MPEG location lookup table"),
        (79, 87, 78, 69) => Some("Ownership frame"),
        (80, 82, 73, 86) => Some("Private frame"),
        (80, 67, 78, 84) => Some("Play counter"),
        (80, 79, 80, 77) => Some("Popularimeter"),
        (80, 79, 83, 83) => Some("Position synchronisation frame"),
        (82, 66, 85, 70) => Some("Recommended buffer size"),
        (82, 86, 82, 66) => Some("Reverb"),
        (83, 89, 76, 84) => Some("Synchronised lyric/text"),
        (83, 89, 84, 67) => Some("Synchronised tempo codes"),
        (84, 65, 76, 66) => Some("Album/Movie/Debug title"),
        (84, 66, 80, 77) => Some("BPM (beats per minute)"),
        (84, 67, 79, 77) => Some("Composer"),
        (84, 67, 79, 78) => Some("Content type"),
        (84, 67, 79, 80) => Some("Copyright message"),
        (84, 68, 65, 84) => Some("Date"),
        (84, 68, 76, 89) => Some("Playlist delay"),
        (84, 69, 78, 67) => Some("Encoded by"),
        (84, 69, 88, 84) => Some("Lyricist/Text writer"),
        (84, 70, 76, 84) => Some("File type"),
        (84, 73, 77, 69) => Some("Time"),
        (84, 73, 84, 49) => Some("Content group description"),
        (84, 73, 84, 50) => Some("Title/songname/content description"),
        (84, 73, 84, 51) => Some("Subtitle/Description refinement"),
        (84, 75, 69, 89) => Some("Initial key"),
        (84, 76, 65, 78) => Some("Language(s)"),
        (84, 76, 69, 78) => Some("Length"),
        (84, 77, 69, 68) => Some("Media type"),
        (84, 79, 65, 76) => Some("Original album/movie/show title"),
        (84, 79, 70, 78) => Some("Original filename"),
        (84, 79, 76, 89) => Some("Original lyricist(s)/text writer(s)"),
        (84, 79, 80, 69) => Some("Original artist(s)/performer(s)"),
        (84, 79, 82, 89) => Some("Original release year"),
        (84, 79, 87, 78) => Some("File owner/licensee"),
        (84, 80, 69, 49) => Some("Lead performer(s)/Soloist(s)"),
        (84, 80, 69, 50) => Some("Band/orchestra/accompaniment"),
        (84, 80, 69, 51) => Some("Conductor/performer refinement"),
        (84, 80, 69, 52) => Some("Interpreted, remixed, or otherwise modified by"),
        (84, 80, 79, 83) => Some("Part of a set"),
        (84, 80, 85, 66) => Some("Publisher"),
        (84, 82, 67, 75) => Some("Track number/Position in set"),
        (84, 82, 68, 65) => Some("Recording dates"),
        (84, 82, 83, 78) => Some("Internet radio station name"),
        (84, 82, 83, 79) => Some("Internet radio station owner"),
        (84, 83, 73, 90) => Some("Size"),
        (84, 83, 79, 50) => Some("Album artist sort order"),
        (84, 83, 79, 67) => Some("Composer sort order"),
        (84, 83, 82, 67) => Some("ISRC (international standard recording code)"),
        (84, 83, 83, 69) => Some("Software/Hardware and settings used for encoding"),
        (84, 89, 69, 82) => Some("Year"),
        (84, 88, 88, 88) => Some("User defined text information frame"),
        (85, 70, 73, 68) => Some("Unique file identifier"),
        (85, 83, 69, 82) => Some("Terms of use"),
        (85, 83, 76, 84) => Some("Unsynchronised lyric/text transcription"),
        (87, 67, 79, 77) => Some("Commercial information"),
        (87, 67, 79, 80) => Some("Copyright/Legal information"),
        (87, 79, 65, 70) => Some("Official audio file webpage"),
        (87, 79, 65, 82) => Some("Official artist/performer webpage"),
        (87, 79, 65, 83) => Some("Official audio source webpage"),
        (87, 79, 82, 83) => Some("Official Internet radio station homepage"),
        (87, 80, 65, 89) => Some("Payment"),
        (87, 80, 85, 66) => Some("Publishers official webpage"),
        (87, 88, 88, 88) => Some("User defined URL link frame"),
        (90, 79, 66, 83) => Some("Obsolete frame"),
        _ => None,
    }
}

/// Looks up `v34_format` in its table.
fn v34_format_exec(key: (u8, u8, u8, u8)) -> (r: Option<Vec<FieldType>>)
    ensures
        r matches Some(v) ==> v34_format(key) == Some(v@),
        r is None ==> v34_format(key) is None,
{
    match key {
        (65, 69, 78, 67) => Some(vec![FieldType::Latin1, FieldType::Int16, FieldType::Int16, FieldType::BinaryData]),
        (65, 80, 73, 67) => Some(vec![FieldType::TextEncoding, FieldType::Latin1, FieldType::Int8, FieldType::String, FieldType::BinaryData]),
        (67, 79, 77, 77) => Some(vec![FieldType::TextEncoding, FieldType::Language, FieldType::String, FieldType::StringFull]),
        (67, 79, 77, 82) => Some(vec![FieldType::TextEncoding, FieldType::Latin1, FieldType::Latin1, FieldType::Latin1, FieldType::Int8, FieldType::String, FieldType::String, FieldType::Latin1, FieldType::BinaryData]),
        (69, 78, 67, 82) => Some(vec![FieldType::Latin1, FieldType::Int8, FieldType::BinaryData]),
        (69, 84, 67, 79) => Some(vec![FieldType::Int8, FieldType::BinaryData]),
        (71, 69, 79, 66) => Some(vec![FieldType::TextEncoding, FieldType::Latin1, FieldType::String, FieldType::String, FieldType::BinaryData]),
        (71, 82, 73, 68) => Some(vec![FieldType::Latin1, FieldType::Int8, FieldType::BinaryData]),
        (76, 73, 78, 75) => Some(vec![FieldType::FrameIdV34, FieldType::Latin1, FieldType::Latin1List]),
        (77, 67, 68, 73) => Some(vec![FieldType::BinaryData]),
        (77, 76, 76, 84) => Some(vec![FieldType::Int16, FieldType::Int24, FieldType::Int24, FieldType::Int8, FieldType::Int8, FieldType::BinaryData]),
        (79, 87, 78, 69) => Some(vec![FieldType::TextEncoding, FieldType::Latin1, FieldType::Latin1, FieldType::String]),
        (80, 82, 73, 86) => Some(vec![FieldType::Latin1, FieldType::BinaryData]),
        (80, 67, 78, 84) => Some(vec![FieldType::Int32Plus]),
        (80, 79, 80, 77) => Some(vec![FieldType::Latin1, FieldType::Int8, FieldType::Int32Plus]),
        (80, 79, 83, 83) => Some(vec![FieldType::Int8, FieldType::BinaryData]),
        (82, 66, 85, 70) => Some(vec![FieldType::Int24, FieldType::Int8, FieldType::Int32]),
        (82, 86, 82, 66) => Some(vec![FieldType::Int16, FieldType::Int16, FieldType::Int8, FieldType::Int8, FieldType::Int8, FieldType::Int8, FieldType::Int8, FieldType::Int8, FieldType::Int8, FieldType::Int8]),
        (83, 89, 76, 84) => Some(vec![FieldType::TextEncoding, FieldType::Language, FieldType::Int8, FieldType::Int8, FieldType::String, FieldType::BinaryData]),
        (83, 89, 84, 67) => Some(vec![FieldType::Int8, FieldType::BinaryData]),
        (84, 65, 76, 66) => Some(vec![FieldType::TextEncoding, FieldType::StringList]),
        (84, 66, 80, 77) => Some(vec![FieldType::TextEncoding, FieldType::StringList]),
        (84, 67, 79, 77) => Some(vec![FieldType::TextEncoding, FieldType::StringList]),
        (84, 67, 79, 78) => Some(vec![FieldType::TextEncoding, FieldType::StringList]),
        (84, 67, 79, 80) => Some(vec![FieldType::TextEncoding, FieldType::StringList]),
        (84, 68, 65, 84) => Some(vec![FieldType::TextEncoding, FieldType::StringList]),
        (84, 68, 76, 89) => Some(vec![FieldType::TextEncoding, FieldType::StringList]),
        (84, 69, 78, 67) => Some(vec![FieldType::TextEncoding, FieldType::StringList]),
        (84, 69, 88, 84) => Some(vec![FieldType::TextEncoding, FieldType::StringList]),
        (84, 70, 76, 84) => Some(vec![FieldType::TextEncoding, FieldType::StringList]),
        (84, 73, 77, 69) => Some(vec![FieldType::TextEncoding, FieldType::StringList]),
        (84, 73, 84, 49) => Some(vec![FieldType::TextEncoding, FieldType::StringList]),
        (84, 73, 84, 50) => Some(vec![FieldType::TextEncoding, FieldType::StringList]),
        (84, 73, 84, 51) => Some(vec![FieldType::TextEncoding, FieldType::StringList]),
        (84, 75, 69, 89) => Some(vec![FieldType::TextEncoding, FieldType::StringList]),
        (84, 76, 65, 78) => Some(vec![FieldType::TextEncoding, FieldType::StringList]),
        (84, 76, 69, 78) => Some(vec![FieldType::TextEncoding, FieldType::StringList]),
        (84, 77, 69, 68) => Some(vec![FieldType::TextEncoding, FieldType::StringList]),
        (84, 79, 65, 76) => Some(vec![FieldType::TextEncoding, FieldType::StringList]),
        (84, 79, 70, 78) => Some(vec![FieldType::TextEncoding, FieldType::StringList]),
        (84, 79, 76, 89) => Some(vec![FieldType::TextEncoding, FieldType::StringList]),
        (84, 79, 80, 69) => Some(vec![FieldType::TextEncoding, FieldType::StringList]),
        (84, 79, 82, 89) => Some(vec![FieldType::TextEncoding, FieldType::StringList]),
        (84, 79, 87, 78) => Some(vec![FieldType::TextEncoding, FieldType::StringList]),
        (84, 80, 69, 49) => Some(vec![FieldType::TextEncoding, FieldType::StringList]),
        (84, 80, 69, 50) => Some(vec![FieldType::TextEncoding, FieldType::StringList]),
        (84, 80, 69, 51) => Some(vec![FieldType::TextEncoding, FieldType::StringList]),
        (84, 80, 69, 52) => Some(vec![FieldType::TextEncoding, FieldType::StringList]),
        (84, 80, 79, 83) => Some(vec![FieldType::TextEncoding, FieldType::StringList]),
        (84, 80, 85, 66) => Some(vec![FieldType::TextEncoding, FieldType::StringList]),
        (84, 82, 67, 75) => Some(vec![FieldType::TextEncoding, FieldType::StringList]),
        (84, 82, 68, 65) => Some(vec![FieldType::TextEncoding, FieldType::StringList]),
        (84, 82, 83, 78) => Some(vec![FieldType::TextEncoding, FieldType::StringList]),
        (84, 82, 83, 79) => Some(vec![FieldType::TextEncoding, FieldType::StringList]),
        (84, 83, 73, 90) => Some(vec![FieldType::TextEncoding, FieldType::StringList]),
        (84, 83, 79, 50) => Some(vec![FieldType::TextEncoding, FieldType::StringList]),
        (84, 83, 79, 67) => Some(vec![FieldType::TextEncoding, FieldType::StringList]),
        (84, 83, 82, 67) => Some(vec![FieldType::TextEncoding, FieldType::StringList]),
        (84, 83, 83, 69) => Some(vec![FieldType::TextEncoding, FieldType::StringList]),
        (84, 89, 69, 82) => Some(vec![FieldType::TextEncoding, FieldType::StringList]),
        (84, 88, 88, 88) => Some(vec![FieldType::TextEncoding, FieldType::String, FieldType::String]),
        (85, 70, 73, 68) => Some(vec![FieldType::Latin1, FieldType::BinaryData]),
        (85, 83, 69, 82) => Some(vec![FieldType::TextEncoding, FieldType::Language, FieldType::String]),
        (85, 83, 76, 84) => Some(vec![FieldType::TextEncoding, FieldType::Language, FieldType::String, FieldType::StringFull]),
        (87, 67, 79, 77) => Some(vec![FieldType::Latin1]),
        (87, 67, 79, 80) => Some(vec![FieldType::Latin1]),
        (87, 79, 65, 70) => Some(vec![FieldType::Latin1]),
        (87, 79, 65, 82) => Some(vec![FieldType::Latin1]),
        (87, 79, 65, 83) => Some(vec![FieldType::Latin1]),
        (87, 79, 82, 83) => Some(vec![FieldType::Latin1]),
        (87, 80, 65, 89) => Some(vec![FieldType::Latin1]),
        (87, 80, 85, 66) => Some(vec![FieldType::Latin1]),
        (87, 88, 88, 88) => Some(vec![FieldType::TextEncoding, FieldType::String, FieldType::Latin1]),
        (90, 79, 66, 83) => Some(vec![FieldType::BinaryData]),
        _ => None,
    }
}

/// Looks up `v34_desc` in its table.
fn v34_desc_exec(key: (u8, u8, u8, u8)) -> (r: Option<&'static str>)
    ensures
        r == v34_desc(key),
{
    match key {
        (65, 69, 78, 67) => Some("Audio encryption"),
        (65, 80, 73, 67) => Some("Attached picture"),
        (67, 79, 77, 77) => Some("Comments"),
        (67, 79, 77, 82) => Some("Commercial frame"),
        (69, 78, 67, 82) => Some("Encryption method registration"),
        (69, 84, 67, 79) => Some("Event timing codes"),
        (71, 69, 79, 66) => Some("General encapsulated object"),
        (71, 82, 73, 68) => Some("Group identification registration"),
        (76, 73, 78, 75) => Some("Linked information"),
        (77, 67, 68, 73) => Some("Music CD identifier"),
        (77, 76, 76, 84) => Some("MPEG location lookup table"),
        (79, 87, 78, 69) => Some("Ownership frame"),
        (80, 82, 73, 86) => Some("Private frame"),
        (80, 67, 78, 84) => Some("Play counter"),
        (80, 79, 80, 77) => Some("Popularimeter"),
        (80, 79, 83, 83) => Some("Position synchronisation frame"),
        (82, 66, 85, 70) => Some("Recommended buffer size"),
        (82, 86, 82, 66) => Some("Reverb"),
        (83, 89, 76, 84) => Some("Synchronised lyric/text"),
        (83, 89, 84, 67) => Some("Synchronised tempo codes"),
        (84, 65, 76, 66) => Some("Album/Movie/Debug title"),
        (84, 66, 80, 77) => Some("BPM (beats per minute)"),
        (84, 67, 79, 77) => Some("Composer"),
        (84, 67, 79, 78) => Some("Content type"),
        (84, 67, 79, 80) => Some("Copyright message"),
        (84, 68, 65, 84) => Some("Date"),
        (84, 68, 76, 89) => Some("Playlist delay"),
        (84, 69, 78, 67) => Some("Encoded by"),
        (84, 69, 88, 84) => Some("Lyricist/Text writer"),
        (84, 70, 76, 84) => Some("File type"),
        (84, 73, 77, 69) => Some("Time"),
        (84, 73, 84, 49) => Some("Content group description"),
        (84, 73, 84, 50) => Some("Title/songname/content description"),
        (84, 73, 84, 51) => Some("Subtitle/Description refinement"),
        (84, 75, 69, 89) => Some("Initial key"),
        (84, 76, 65, 78) => Some("Language(s)"),
        (84, 76, 69, 78) => Some("Length"),
        (84, 77, 69, 68) => Some("Media type"),
        (84, 79, 65, 76) => Some("Original album/movie/show title"),
        (84, 79, 70, 78) => Some("Original filename"),
        (84, 79, 76, 89) => Some("Original lyricist(s)/text writer(s)"),
        (84, 79, 80, 69) => Some("Original artist(s)/performer(s)"),
        (84, 79, 82, 89) => Some("Original release year"),
        (84, 79, 87, 78) => Some("File owner/licensee"),
        (84, 80, 69, 49) => Some("Lead performer(s)/Soloist(s)"),
        (84, 80, 69, 50) => Some("Band/orchestra/accompaniment"),
        (84, 80, 69, 51) => Some("Conductor/performer refinement"),
        (84, 80, 69, 52) => Some("Interpreted, remixed, or otherwise modified by"),
        (84, 80, 79, 83) => Some("Part of a set"),
        (84, 80, 85, 66) => Some("Publisher"),
        (84, 82, 67, 75) => Some("Track number/Position in set"),
        (84, 82, 68, 65) => Some("Recording dates"),
        (84, 82, 83, 78) => Some("Internet radio station name"),
        (84, 82, 83, 79) => Some("Internet radio station owner"),
        (84, 83, 73, 90) => Some("Size"),
        (84, 83, 79, 50) => Some("Album artist sort order"),
        (84, 83, 79, 67) => Some("Composer sort order"),
        (84, 83, 82, 67) => Some("ISRC (international standard recording code)"),
        (84, 83, 83, 69) => Some("Software/Hardware and settings used for encoding"),
        (84, 89, 69, 82) => Some("Year"),
        (84, 88, 88, 88) => Some("User defined text information frame"),
        (85, 70, 73, 68) => Some("Unique file identifier"),
        (85, 83, 69, 82) => Some("Terms of use"),
        (85, 83, 76, 84) => Some("Unsynchronised lyric/text transcription"),
        (87, 67, 79, 77) => Some("Commercial information"),
        (87, 67, 79, 80) => Some("Copyright/Legal information"),
        (87, 79, 65, 70) => Some("Official audio file webpage"),
        (87, 79, 65, 82) => Some("Official artist/performer webpage"),
        (87, 79, 65, 83) => Some("Official audio source webpage"),
        (87, 79, 82, 83) => Some("Official Internet radio station homepage"),
        (87, 80, 65, 89) => Some("Payment"),
        (87, 80, 85, 66) => Some("Publishers official webpage"),
        (87, 88, 88, 88) => Some("User defined URL link frame"),
        (90, 79, 66, 83) => Some("Obsolete frame"),
        _ => None,
    }
}

/// The ID3v2.3/4 identifier that an ID3v2.2 identifier is renamed to, if any.
pub open spec fn rename_2_to_34(key: (u8, u8, u8)) -> Option<(u8, u8, u8, u8)> {
    match key {
        (66, 85, 70) => Some((82, 66, 85, 70)),
        (67, 78, 84) => Some((80, 67, 78, 84)),
        (67, 79, 77) => Some((67, 79, 77, 77)),
        (67, 82, 65) => Some((65, 69, 78, 67)),
        (69, 84, 67) => Some((69, 84, 67, 79)),
        (71, 69, 79) => Some((71, 69, 79, 66)),
        (73, 80, 76) => Some((73, 80, 76, 83)),
        (76, 78, 75) => Some((76, 73, 78, 75)),
        (77, 67, 73) => Some((77, 67, 68, 73)),
        (77, 76, 76) => Some((77, 76, 76, 84)),
        (80, 73, 67) => Some((65, 80, 73, 67)),
        (80, 79, 80) => Some((80, 79, 80, 77)),
        (82, 69, 86) => Some((82, 86, 82, 66)),
        (83, 76, 84) => Some((83, 89, 76, 84)),
        (83, 84, 67) => Some((83, 89, 84, 67)),
        (84, 65, 76) => Some((84, 65, 76, 66)),
        (84, 66, 80) => Some((84, 66, 80, 77)),
        (84, 67, 77) => Some((84, 67, 79, 77)),
        (84, 67, 79) => Some((84, 67, 79, 78)),
        (84, 67, 82) => Some((84, 67, 79, 80)),
        (84, 68, 89) => Some((84, 68, 76, 89)),
        (84, 69, 78) => Some((84, 69, 78, 67)),
        (84, 70, 84) => Some((84, 70, 76, 84)),
        (84, 75, 69) => Some((84, 75, 69, 89)),
        (84, 76, 65) => Some((84, 76, 65, 78)),
        (84, 76, 69) => Some((84, 76, 69, 78)),
        (84, 77, 84) => Some((84, 77, 69, 68)),
        (84, 79, 65) => Some((84, 79, 80, 69)),
        (84, 79, 70) => Some((84, 79, 70, 78)),
        (84, 79, 76) => Some((84, 79, 76, 89)),
        (84, 79, 84) => Some((84, 79, 65, 76)),
        (84, 80, 49) => Some((84, 80, 69, 49)),
        (84, 80, 50) => Some((84, 80, 69, 50)),
        (84, 80, 51) => Some((84, 80, 69, 51)),
        (84, 80, 52) => Some((84, 80, 69, 52)),
        (84, 80, 65) => Some((84, 80, 79, 83)),
        (84, 80, 66) => Some((84, 80, 85, 66)),
        (84, 82, 67) => Some((84, 83, 82, 67)),
        (84, 82, 75) => Some((84, 82, 67, 75)),
        (84, 83, 83) => Some((84, 83, 83, 69)),
        (84, 84, 49) => Some((84, 73, 84, 49)),
        (84, 84, 50) => Some((84, 73, 84, 50)),
        (84, 84, 51) => Some((84, 73, 84, 51)),
        (84, 88, 84) => Some((84, 69, 88, 84)),
        (84, 88, 88) => Some((84, 88, 88, 88)),
        (84, 89, 69) => Some((84, 89, 69, 82)),
        (85, 70, 73) => Some((85, 70, 73, 68)),
        (85, 76, 84) => Some((85, 83, 76, 84)),
        (87, 65, 70) => Some((87, 79, 65, 70)),
        (87, 65, 82) => Some((87, 79, 65, 82)),
        (87, 65, 83) => Some((87, 79, 65, 83)),
        (87, 67, 77) => Some((87, 67, 79, 77)),
        (87, 67, 80) => Some((87, 67, 79, 80)),
        (87, 80, 66) => Some((87, 80, 85, 66)),
        (87, 88, 88) => Some((87, 88, 88, 88)),
        _ => None,
    }
}

/// The ID3v2.2 identifier that an ID3v2.3/4 identifier is renamed to, if any.
pub open spec fn rename_34_to_2(key: (u8, u8, u8, u8)) -> Option<(u8, u8, u8)> {
    match key {
        (82, 66, 85, 70) => Some((66, 85, 70)),
        (80, 67, 78, 84) => Some((67, 78, 84)),
        (67, 79, 77, 77) => Some((67, 79, 77)),
        (65, 69, 78, 67) => Some((67, 82, 65)),
        (69, 84, 67, 79) => Some((69, 84, 67)),
        (71, 69, 79, 66) => Some((71, 69, 79)),
        (73, 80, 76, 83) => Some((73, 80, 76)),
        (76, 73, 78, 75) => Some((76, 78, 75)),
        (77, 67, 68, 73) => Some((77, 67, 73)),
        (77, 76, 76, 84) => Some((77, 76, 76)),
        (65, 80, 73, 67) => Some((80, 73, 67)),
        (80, 79, 80, 77) => Some((80, 79, 80)),
        (82, 86, 82, 66) => Some((82, 69, 86)),
        (83, 89, 76, 84) => Some((83, 76, 84)),
        (83, 89, 84, 67) => Some((83, 84, 67)),
        (84, 65, 76, 66) => Some((84, 65, 76)),
        (84, 66, 80, 77) => Some((84, 66, 80)),
        (84, 67, 79, 77) => Some((84, 67, 77)),
        (84, 67, 79, 78) => Some((84, 67, 79)),
        (84, 67, 79, 80) => Some((84, 67, 82)),
        (84, 68, 76, 89) => Some((84, 68, 89)),
        (84, 69, 78, 67) => Some((84, 69, 78)),
        (84, 70, 76, 84) => Some((84, 70, 84)),
        (84, 75, 69, 89) => Some((84, 75, 69)),
        (84, 76, 65, 78) => Some((84, 76, 65)),
        (84, 76, 69, 78) => Some((84, 76, 69)),
        (84, 77, 69, 68) => Some((84, 77, 84)),
        (84, 79, 80, 69) => Some((84, 79, 65)),
        (84, 79, 70, 78) => Some((84, 79, 70)),
        (84, 79, 76, 89) => Some((84, 79, 76)),
        (84, 79, 65, 76) => Some((84, 79, 84)),
        (84, 80, 69, 49) => Some((84, 80, 49)),
        (84, 80, 69, 50) => Some((84, 80, 50)),
        (84, 80, 69, 51) => Some((84, 80, 51)),
        (84, 80, 69, 52) => Some((84, 80, 52)),
        (84, 80, 79, 83) => Some((84, 80, 65)),
        (84, 80, 85, 66) => Some((84, 80, 66)),
        (84, 83, 82, 67) => Some((84, 82, 67)),
        (84, 82, 67, 75) => Some((84, 82, 75)),
        (84, 83, 83, 69) => Some((84, 83, 83)),
        (84, 73, 84, 49) => Some((84, 84, 49)),
        (84, 73, 84, 50) => Some((84, 84, 50)),
        (84, 73, 84, 51) => Some((84, 84, 51)),
        (84, 69, 88, 84) => Some((84, 88, 84)),
        (84, 88, 88, 88) => Some((84, 88, 88)),
        (84, 89, 69, 82) => Some((84, 89, 69)),
        (85, 70, 73, 68) => Some((85, 70, 73)),
        (85, 83, 76, 84) => Some((85, 76, 84)),
        (87, 79, 65, 70) => Some((87, 65, 70)),
        (87, 79, 65, 82) => Some((87, 65, 82)),
        (87, 79, 65, 83) => Some((87, 65, 83)),
        (87, 67, 79, 77) => Some((87, 67, 77)),
        (87, 67, 79, 80) => Some((87, 67, 80)),
        (87, 80, 85, 66) => Some((87, 80, 66)),
        (87, 88, 88, 88) => Some((87, 88, 88)),
        _ => None,
    }
}
/// Looks up `rename_2_to_34` in its table.
fn rename_2_to_34_exec(key: (u8, u8, u8)) -> (r: Option<(u8, u8, u8, u8)>)
    ensures
        r == rename_2_to_34(key),
{
    match key {
        (66, 85, 70) => Some((82, 66, 85, 70)),
        (67, 78, 84) => Some((80, 67, 78, 84)),
        (67, 79, 77) => Some((67, 79, 77, 77)),
        (67, 82, 65) => Some((65, 69, 78, 67)),
        (69, 84, 67) => Some((69, 84, 67, 79)),
        (71, 69, 79) => Some((71, 69, 79, 66)),
        (73, 80, 76) => Some((73, 80, 76, 83)),
        (76, 78, 75) => Some((76, 73, 78, 75)),
        (77, 67, 73) => Some((77, 67, 68, 73)),
        (77, 76, 76) => Some((77, 76, 76, 84)),
        (80, 73, 67) => Some((65, 80, 73, 67)),
        (80, 79, 80) => Some((80, 79, 80, 77)),
        (82, 69, 86) => Some((82, 86, 82, 66)),
        (83, 76, 84) => Some((83, 89, 76, 84)),
        (83, 84, 67) => Some((83, 89, 84, 67)),
        (84, 65, 76) => Some((84, 65, 76, 66)),
        (84, 66, 80) => Some((84, 66, 80, 77)),
        (84, 67, 77) => Some((84, 67, 79, 77)),
        (84, 67, 79) => Some((84, 67, 79, 78)),
        (84, 67, 82) => Some((84, 67, 79, 80)),
        (84, 68, 89) => Some((84, 68, 76, 89)),
        (84, 69, 78) => Some((84, 69, 78, 67)),
        (84, 70, 84) => Some((84, 70, 76, 84)),
        (84, 75, 69) => Some((84, 75, 69, 89)),
        (84, 76, 65) => Some((84, 76, 65, 78)),
        (84, 76, 69) => Some((84, 76, 69, 78)),
        (84, 77, 84) => Some((84, 77, 69, 68)),
        (84, 79, 65) => Some((84, 79, 80, 69)),
        (84, 79, 70) => Some((84, 79, 70, 78)),
        (84, 79, 76) => Some((84, 79, 76, 89)),
        (84, 79, 84) => Some((84, 79, 65, 76)),
        (84, 80, 49) => Some((84, 80, 69, 49)),
        (84, 80, 50) => Some((84, 80, 69, 50)),
        (84, 80, 51) => Some((84, 80, 69, 51)),
        (84, 80, 52) => Some((84, 80, 69, 52)),
        (84, 80, 65) => Some((84, 80, 79, 83)),
        (84, 80, 66) => Some((84, 80, 85, 66)),
        (84, 82, 67) => Some((84, 83, 82, 67)),
        (84, 82, 75) => Some((84, 82, 67, 75)),
        (84, 83, 83) => Some((84, 83, 83, 69)),
        (84, 84, 49) => Some((84, 73, 84, 49)),
        (84, 84, 50) => Some((84, 73, 84, 50)),
        (84, 84, 51) => Some((84, 73, 84, 51)),
        (84, 88, 84) => Some((84, 69, 88, 84)),
        (84, 88, 88) => Some((84, 88, 88, 88)),
        (84, 89, 69) => Some((84, 89, 69, 82)),
        (85, 70, 73) => Some((85, 70, 73, 68)),
        (85, 76, 84) => Some((85, 83, 76, 84)),
        (87, 65, 70) => Some((87, 79, 65, 70)),
        (87, 65, 82) => Some((87, 79, 65, 82)),
        (87, 65, 83) => Some((87, 79, 65, 83)),
        (87, 67, 77) => Some((87, 67, 79, 77)),
        (87, 67, 80) => Some((87, 67, 79, 80)),
        (87, 80, 66) => Some((87, 80, 85, 66)),
        (87, 88, 88) => Some((87, 88, 88, 88)),
        _ => None,
    }
}

/// Looks up `rename_34_to_2` in its table.
fn rename_34_to_2_exec(key: (u8, u8, u8, u8)) -> (r: Option<(u8, u8, u8)>)
    ensures
        r == rename_34_to_2(key),
{
    match key {
        (82, 66, 85, 70) => Some((66, 85, 70)),
        (80, 67, 78, 84) => Some((67, 78, 84)),
        (67, 79, 77, 77) => Some((67, 79, 77)),
        (65, 69, 78, 67) => Some((67, 82, 65)),
        (69, 84, 67, 79) => Some((69, 84, 67)),
        (71, 69, 79, 66) => Some((71, 69, 79)),
        (73, 80, 76, 83) => Some((73, 80, 76)),
        (76, 73, 78, 75) => Some((76, 78, 75)),
        (77, 67, 68, 73) => Some((77, 67, 73)),
        (77, 76, 76, 84) => Some((77, 76, 76)),
        (65, 80, 73, 67) => Some((80, 73, 67)),
        (80, 79, 80, 77) => Some((80, 79, 80)),
        (82, 86, 82, 66) => Some((82, 69, 86)),
        (83, 89, 76, 84) => Some((83, 76, 84)),
        (83, 89, 84, 67) => Some((83, 84, 67)),
        (84, 65, 76, 66) => Some((84, 65, 76)),
        (84, 66, 80, 77) => Some((84, 66, 80)),
        (84, 67, 79, 77) => Some((84, 67, 77)),
        (84, 67, 79, 78) => Some((84, 67, 79)),
        (84, 67, 79, 80) => Some((84, 67, 82)),
        (84, 68, 76, 89) => Some((84, 68, 89)),
        (84, 69, 78, 67) => Some((84, 69, 78)),
        (84, 70, 76, 84) => Some((84, 70, 84)),
        (84, 75, 69, 89) => Some((84, 75, 69)),
        (84, 76, 65, 78) => Some((84, 76, 65)),
        (84, 76, 69, 78) => Some((84, 76, 69)),
        (84, 77, 69, 68) => Some((84, 77, 84)),
        (84, 79, 80, 69) => Some((84, 79, 65)),
        (84, 79, 70, 78) => Some((84, 79, 70)),
        (84, 79, 76, 89) => Some((84, 79, 76)),
        (84, 79, 65, 76) => Some((84, 79, 84)),
        (84, 80, 69, 49) => Some((84, 80, 49)),
        (84, 80, 69, 50) => Some((84, 80, 50)),
        (84, 80, 69, 51) => Some((84, 80, 51)),
        (84, 80, 69, 52) => Some((84, 80, 52)),
        (84, 80, 79, 83) => Some((84, 80, 65)),
        (84, 80, 85, 66) => Some((84, 80, 66)),
        (84, 83, 82, 67) => Some((84, 82, 67)),
        (84, 82, 67, 75) => Some((84, 82, 75)),
        (84, 83, 83, 69) => Some((84, 83, 83)),
        (84, 73, 84, 49) => Some((84, 84, 49)),
        (84, 73, 84, 50) => Some((84, 84, 50)),
        (84, 73, 84, 51) => Some((84, 84, 51)),
        (84, 69, 88, 84) => Some((84, 88, 84)),
        (84, 88, 88, 88) => Some((84, 88, 88)),
        (84, 89, 69, 82) => Some((84, 89, 69)),
        (85, 70, 73, 68) => Some((85, 70, 73)),
        (85, 83, 76, 84) => Some((85, 76, 84)),
        (87, 79, 65, 70) => Some((87, 65, 70)),
        (87, 79, 65, 82) => Some((87, 65, 82)),
        (87, 79, 65, 83) => Some((87, 65, 83)),
        (87, 67, 79, 77) => Some((87, 67, 77)),
        (87, 67, 79, 80) => Some((87, 67, 80)),
        (87, 80, 85, 66) => Some((87, 80, 66)),
        (87, 88, 88, 88) => Some((87, 88, 88)),
        _ => None,
    }
}

/// The bytes of a four-byte identifier as a tuple.
pub open spec fn key4(a: [u8; 4]) -> (u8, u8, u8, u8) {
    (a@[0], a@[1], a@[2], a@[3])
}

/// The bytes of a three-byte identifier as a tuple.
pub open spec fn key3(a: [u8; 3]) -> (u8, u8, u8) {
    (a@[0], a@[1], a@[2])
}

/// The catalog's field layout for an identifier, if it is known.
pub open spec fn known_format(id: Id) -> Option<Seq<FieldType>> {
    match id {
        Id::V2(a) => v2_format(key3(a)),
        Id::V3(a) => if v34_format(key4(a)) is Some { v34_format(key4(a)) } else { v3_only_format(key4(a)) },
        Id::V4(a) => if v34_format(key4(a)) is Some { v34_format(key4(a)) } else { v4_only_format(key4(a)) },
    }
}

/// The catalog's description of an identifier, if it is known.
pub open spec fn known_description(id: Id) -> Option<&'static str> {
    match id {
        Id::V2(a) => v2_desc(key3(a)),
        Id::V3(a) => if v34_desc(key4(a)) is Some { v34_desc(key4(a)) } else { v3_only_desc(key4(a)) },
        Id::V4(a) => if v34_desc(key4(a)) is Some { v34_desc(key4(a)) } else { v4_only_desc(key4(a)) },
    }
}

/// The field layout of a frame: the catalog's for a known identifier;
/// otherwise an encoding and a string list for `T...`, one Latin-1 string for
/// `W...`, and opaque data for the rest.
pub open spec fn format_spec(id: Id) -> Seq<FieldType> {
    match known_format(id) {
        Some(f) => f,
        None => if id_name(id)[0] == 0x54 {
            seq![FieldType::TextEncoding, FieldType::StringList]
        } else if id_name(id)[0] == 0x57 {
            seq![FieldType::Latin1]
        } else {
            seq![FieldType::BinaryData]
        },
    }
}

/// The description of a frame: the catalog's for a known identifier, else
/// one that names the kind of unknown frame.
pub open spec fn description_spec(id: Id) -> &'static str {
    match known_description(id) {
        Some(d) => d,
        None => if id_name(id)[0] == 0x54 {
            "Unknown text frame"
        } else if id_name(id)[0] == 0x57 {
            "Unknown URL frame"
        } else {
            "Unknown frame"
        },
    }
}

/// Returns the layout of fields within the frame, according to the specification.
pub fn frame_format(id: Id) -> (r: Option<Vec<FieldType>>)
    ensures
        r matches Some(v) && v@ == format_spec(id),
{
    let known = match id {
        Id::V2(a) => v2_format_exec((a[0], a[1], a[2])),
        Id::V3(a) => match v34_format_exec((a[0], a[1], a[2], a[3])) {
            Some(f) => Some(f),
            None => v3_only_format_exec((a[0], a[1], a[2], a[3])),
        },
        Id::V4(a) => match v34_format_exec((a[0], a[1], a[2], a[3])) {
            Some(f) => Some(f),
            None => v4_only_format_exec((a[0], a[1], a[2], a[3])),
        },
    };
    match known {
        Some(f) => Some(f),
        None => {
            let first = id.name()[0];
            if first == 0x54 {
                Some(vec![FieldType::TextEncoding, FieldType::StringList])
            } else if first == 0x57 {
                Some(vec![FieldType::Latin1])
            } else {
                Some(vec![FieldType::BinaryData])
            }
        },
    }
}

/// Returns a string describing the frame type.
pub fn frame_description(id: Id) -> (r: &'static str)
    ensures
        r == description_spec(id),
{
    let known = match id {
        Id::V2(a) => v2_desc_exec((a[0], a[1], a[2])),
        Id::V3(a) => match v34_desc_exec((a[0], a[1], a[2], a[3])) {
            Some(d) => Some(d),
            None => v3_only_desc_exec((a[0], a[1], a[2], a[3])),
        },
        Id::V4(a) => match v34_desc_exec((a[0], a[1], a[2], a[3])) {
            Some(d) => Some(d),
            None => v4_only_desc_exec((a[0], a[1], a[2], a[3])),
        },
    };
    match known {
        Some(d) => d,
        None => {
            let first = id.name()[0];
            if first == 0x54 {
                "Unknown text frame"
            } else if first == 0x57 {
                "Unknown URL frame"
            } else {
                "Unknown frame"
            }
        },
    }
}

/// Returns the corresponding ID3v2.3/ID3v2.4 ID given the ID3v2.2 ID.
pub fn convert_id_2_to_3(id: [u8; 3]) -> (r: Option<[u8; 4]>)
    ensures
        r is None <==> rename_2_to_34(key3(id)) is None,
        r matches Some(x) ==> rename_2_to_34(key3(id)) == Some(key4(x)),
{
    match rename_2_to_34_exec((id[0], id[1], id[2])) {
        Some((a, b, c, d)) => Some([a, b, c, d]),
        None => None,
    }
}

/// Returns the corresponding ID3v2.2 ID given the ID3v2.3/ID3v2.4 ID.
pub fn convert_id_3_to_2(id: [u8; 4]) -> (r: Option<[u8; 3]>)
    ensures
        r is None <==> rename_34_to_2(key4(id)) is None,
        r matches Some(x) ==> rename_34_to_2(key4(id)) == Some(key3(x)),
{
    match rename_34_to_2_exec((id[0], id[1], id[2], id[3])) {
        Some((a, b, c)) => Some([a, b, c]),
        None => None,
    }
}

/// Renaming an ID3v2.2 identifier to ID3v2.3/4 and back gives the identifier
/// it started from, wherever the first renaming exists.
#[verifier::rlimit(50)]
pub proof fn lemma_rename_round_trip(a: u8, b: u8, c: u8)
    ensures
        rename_2_to_34((a, b, c)) matches Some(x) ==> rename_34_to_2(x) == Some((a, b, c)),
{
}

} // verus!
