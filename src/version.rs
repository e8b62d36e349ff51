//! ID3v2 versions and the frame identifiers that belong to them.
use vstd::prelude::*;
use crate::encoding::Encoding;

verus! {

/// The version of an ID3v2 tag: 2.2, 2.3 or 2.4.
#[derive(Debug, Clone, Copy, PartialEq, Eq, Structural)]
pub enum Version {
    /// ID3v2.2
    V2,
    /// ID3v2.3
    V3,
    /// ID3v2.4
    V4,
}

/// The major version number that stands for a version in a tag header.
pub open spec fn version_number(v: Version) -> u8 {
    match v {
        Version::V2 => 2,
        Version::V3 => 3,
        Version::V4 => 4,
    }
}

/// Whether text in an encoding can stand in a tag of a version: ID3v2.4 admits
/// all four encodings, the earlier versions Latin-1 and UTF-16 only.
pub open spec fn encoding_compatible_spec(v: Version, e: Encoding) -> bool {
    v == Version::V4 || e == Encoding::Latin1 || e == Encoding::UTF16
}

/// The frame identifier of a version: three bytes for ID3v2.2, four for the others.
#[derive(Debug, Clone, Copy, PartialEq, Eq)]
pub enum Id {
    /// An ID3v2.2 identifier.
    V2([u8; 3]),
    /// An ID3v2.3 identifier.
    V3([u8; 4]),
    /// An ID3v2.4 identifier.
    V4([u8; 4]),
}

/// The version an identifier belongs to.
pub open spec fn id_version(id: Id) -> Version {
    match id {
        Id::V2(_) => Version::V2,
        Id::V3(_) => Version::V3,
        Id::V4(_) => Version::V4,
    }
}

/// The bytes of an identifier.
pub open spec fn id_name(id: Id) -> Seq<u8> {
    match id {
        Id::V2(a) => a@,
        Id::V3(a) => a@,
        Id::V4(a) => a@,
    }
}

/// Two identifiers are the same when they have the same version and bytes.
pub open spec fn same_id(a: Id, b: Id) -> bool {
    id_version(a) == id_version(b) && id_name(a) == id_name(b)
}

/// Whether an identifier names a standard-layout text frame (not TXX / TXXX).
pub open spec fn is_text_spec(id: Id) -> bool {
    id_name(id)[0] == 0x54 && id_name(id) != seq![0x54u8, 0x58, 0x58] && id_name(id) != seq![0x54u8, 0x58, 0x58, 0x58]
}

/// Whether an identifier names a standard-layout URL frame (not WXX / WXXX).
pub open spec fn is_url_spec(id: Id) -> bool {
    id_name(id)[0] == 0x57 && id_name(id) != seq![0x57u8, 0x58, 0x58] && id_name(id) != seq![0x57u8, 0x58, 0x58, 0x58]
}

impl Id {
    /// Returns the ID3v2 version to which an ID belongs.
    pub fn version(&self) -> (r: Version)
        ensures
            r == id_version(*self),
    {
        match self {
            Id::V2(_) => Version::V2,
            Id::V3(_) => Version::V3,
            Id::V4(_) => Version::V4,
        }
    }

    /// Returns the frame ID bytes stored in an ID.
    pub fn name(&self) -> (r: &[u8])
        ensures
            r@ == id_name(*self),
    {
        match self {
            Id::V2(a) => a.as_slice(),
            Id::V3(a) => a.as_slice(),
            Id::V4(a) => a.as_slice(),
        }
    }

    /// Whether two identifiers are the same.
    pub fn same_as(&self, other: &Id) -> (r: bool)
        ensures
            r == same_id(*self, *other),
    {
        let a = self.name();
        let b = other.name();
        if self.version() != other.version() || a.len() != b.len() {
            return false;
        }
        let mut i: usize = 0;
        while i < a.len()
            invariant
                a@ == id_name(*self),
                b@ == id_name(*other),
                a@.len() == b@.len(),
                i <= a@.len(),
                forall|k: int| 0 <= k < i ==> a@[k] == b@[k],
            decreases a@.len() - i,
        {
            if a[i] != b[i] {
                assert(a@[i as int] != b@[i as int]);
                return false;
            }
            i = i + 1;
        }
        assert(a@ =~= b@);
        true
    }

    /// Returns whether this ID corresponds to a standard-layout text frame.
    /// TXX/TXXX frames have a different layout and are excluded.
    pub fn is_text(&self) -> (r: bool)
        ensures
            r == is_text_spec(*self),
    {
        marked_except_xx(self.name(), 0x54)
    }

    /// Returns whether this ID corresponds to a standard-layout URL frame.
    /// WXX/WXXX frames have a different layout and are excluded.
    pub fn is_url(&self) -> (r: bool)
        ensures
            r == is_url_spec(*self),
    {
        marked_except_xx(self.name(), 0x57)
    }
}

/// Whether an identifier starts with `first` and is not `first` followed by
/// two or three `X`.
fn marked_except_xx(a: &[u8], first: u8) -> (r: bool)
    requires
        a@.len() == 3 || a@.len() == 4,
    ensures
        r == (a@[0] == first && a@ != seq![first, 0x58u8, 0x58] && a@ != seq![first, 0x58u8, 0x58, 0x58]),
{
    let xx = if a.len() == 3 {
        a[1] == 0x58 && a[2] == 0x58
    } else {
        a[1] == 0x58 && a[2] == 0x58 && a[3] == 0x58
    };
    let r = a[0] == first && !xx;
    proof {
        if a@.len() == 3 {
            assert(seq![first, 0x58u8, 0x58].len() == 3);
            assert(a@ != seq![first, 0x58u8, 0x58, 0x58]);
            if a@ == seq![first, 0x58u8, 0x58] {
                assert(a@[1] == 0x58 && a@[2] == 0x58);
            }
            if a@[0] == first && xx {
                assert(a@ =~= seq![first, 0x58u8, 0x58]);
            }
        } else {
            assert(a@ != seq![first, 0x58u8, 0x58]);
            if a@ == seq![first, 0x58u8, 0x58, 0x58] {
                assert(a@[1] == 0x58 && a@[2] == 0x58 && a@[3] == 0x58);
            }
            if a@[0] == first && xx {
                assert(a@ =~= seq![first, 0x58u8, 0x58, 0x58]);
            }
        }
    }
    r
}


/// Whether `r` is the identifier of version `v` whose bytes are `v2` under
/// ID3v2.2 and `v34` under the later versions.
pub open spec fn names_id(r: Id, v: Version, v2: Seq<u8>, v34: Seq<u8>) -> bool {
    id_version(r) == v && id_name(r) == (if v == Version::V2 { v2 } else { v34 })
}

/// The identifier of a version whose bytes are `v2` under ID3v2.2 and `v34`
/// under the later versions.
pub open spec fn id_for(v: Version, v2: [u8; 3], v34: [u8; 4]) -> Id {
    match v {
        Version::V2 => Id::V2(v2),
        Version::V3 => Id::V3(v34),
        Version::V4 => Id::V4(v34),
    }
}

impl Version {
    /// Returns the major version and revision bytes of a tag header for this version.
    pub fn to_bytes(&self) -> (r: [u8; 2])
        ensures
            r@ == seq![version_number(*self), 0u8],
    {
        let r = match self {
            Version::V2 => [2u8, 0u8],
            Version::V3 => [3u8, 0u8],
            Version::V4 => [4u8, 0u8],
        };
        assert(r@ =~= seq![version_number(*self), 0u8]);
        r
    }

    /// Returns the "best" text encoding compatible with this version of tag:
    /// UTF-8 for ID3v2.4, UTF-16 for the earlier versions.
    pub fn default_encoding(&self) -> (r: Encoding)
        ensures
            r == (if *self == Version::V4 { Encoding::UTF8 } else { Encoding::UTF16 }),
            encoding_compatible_spec(*self, r),
    {
        match self {
            Version::V4 => Encoding::UTF8,
            _ => Encoding::UTF16,
        }
    }

    /// Returns whether an encoding is compatible with this version of tag.
    pub fn encoding_compatible(&self, encoding: Encoding) -> (r: bool)
        ensures
            r == encoding_compatible_spec(*self, encoding),
    {
        match self {
            Version::V4 => true,
            _ => encoding == Encoding::UTF16 || encoding == Encoding::Latin1,
        }
    }

    /// Returns the encodings compatible with this version.
    pub fn compatible_encodings(&self) -> (r: Vec<Encoding>)
        ensures
            forall|e: Encoding| r@.contains(e) <==> encoding_compatible_spec(*self, e),
            r@.no_duplicates(),
    {
        let r = match self {
            Version::V4 => vec![Encoding::Latin1, Encoding::UTF16, Encoding::UTF16BE, Encoding::UTF8],
            _ => vec![Encoding::Latin1, Encoding::UTF16],
        };
        assert forall|e: Encoding| r@.contains(e) <==> encoding_compatible_spec(*self, e) by {
            if encoding_compatible_spec(*self, e) {
                match e {
                    Encoding::Latin1 => assert(r@[0] == e),
                    Encoding::UTF16 => assert(r@[1] == e),
                    Encoding::UTF16BE => assert(r@[2] == e),
                    Encoding::UTF8 => assert(r@[3] == e),
                }
            }
        }
        r
    }

    /// The identifier of this version whose bytes are `v2` under ID3v2.2 and
    /// `v34` under the later versions.
    fn versioned_id(&self, v2: [u8; 3], v34: [u8; 4]) -> (r: Id)
        ensures
            names_id(r, *self, v2@, v34@),
            r == id_for(*self, v2, v34),
    {
        match self {
            Version::V2 => Id::V2(v2),
            Version::V3 => Id::V3(v34),
            Version::V4 => Id::V4(v34),
        }
    }

    /// The identifier of the lead artist frame in this version (TP1 / TPE1).
    pub fn artist_id(&self) -> (r: Id)
        ensures
            r == id_for(*self, [0x54, 0x50, 0x31], [0x54, 0x50, 0x45, 0x31]),
            names_id(r, *self, seq![0x54u8, 0x50, 0x31], seq![0x54u8, 0x50, 0x45, 0x31]),
    {
        let r = self.versioned_id([0x54, 0x50, 0x31], [0x54, 0x50, 0x45, 0x31]);
        assert([0x54, 0x50, 0x31]@ =~= seq![0x54u8, 0x50, 0x31] && [0x54, 0x50, 0x45, 0x31]@ =~= seq![0x54u8, 0x50, 0x45, 0x31]);
        r
    }

    /// The identifier of the album artist frame in this version (TP2 / TPE2).
    pub fn album_artist_id(&self) -> (r: Id)
        ensures
            r == id_for(*self, [0x54, 0x50, 0x32], [0x54, 0x50, 0x45, 0x32]),
            names_id(r, *self, seq![0x54u8, 0x50, 0x32], seq![0x54u8, 0x50, 0x45, 0x32]),
    {
        let r = self.versioned_id([0x54, 0x50, 0x32], [0x54, 0x50, 0x45, 0x32]);
        assert([0x54, 0x50, 0x32]@ =~= seq![0x54u8, 0x50, 0x32] && [0x54, 0x50, 0x45, 0x32]@ =~= seq![0x54u8, 0x50, 0x45, 0x32]);
        r
    }

    /// The identifier of the album frame in this version (TAL / TALB).
    pub fn album_id(&self) -> (r: Id)
        ensures
            r == id_for(*self, [0x54, 0x41, 0x4C], [0x54, 0x41, 0x4C, 0x42]),
            names_id(r, *self, seq![0x54u8, 0x41, 0x4C], seq![0x54u8, 0x41, 0x4C, 0x42]),
    {
        let r = self.versioned_id([0x54, 0x41, 0x4C], [0x54, 0x41, 0x4C, 0x42]);
        assert([0x54, 0x41, 0x4C]@ =~= seq![0x54u8, 0x41, 0x4C] && [0x54, 0x41, 0x4C, 0x42]@ =~= seq![0x54u8, 0x41, 0x4C, 0x42]);
        r
    }

    /// The identifier of the title frame in this version (TT2 / TIT2).
    pub fn title_id(&self) -> (r: Id)
        ensures
            r == id_for(*self, [0x54, 0x54, 0x32], [0x54, 0x49, 0x54, 0x32]),
            names_id(r, *self, seq![0x54u8, 0x54, 0x32], seq![0x54u8, 0x49, 0x54, 0x32]),
    {
        let r = self.versioned_id([0x54, 0x54, 0x32], [0x54, 0x49, 0x54, 0x32]);
        assert([0x54, 0x54, 0x32]@ =~= seq![0x54u8, 0x54, 0x32] && [0x54, 0x49, 0x54, 0x32]@ =~= seq![0x54u8, 0x49, 0x54, 0x32]);
        r
    }

    /// The identifier of the genre frame in this version (TCO / TCON).
    pub fn genre_id(&self) -> (r: Id)
        ensures
            r == id_for(*self, [0x54, 0x43, 0x4F], [0x54, 0x43, 0x4F, 0x4E]),
            names_id(r, *self, seq![0x54u8, 0x43, 0x4F], seq![0x54u8, 0x43, 0x4F, 0x4E]),
    {
        let r = self.versioned_id([0x54, 0x43, 0x4F], [0x54, 0x43, 0x4F, 0x4E]);
        assert([0x54, 0x43, 0x4F]@ =~= seq![0x54u8, 0x43, 0x4F] && [0x54, 0x43, 0x4F, 0x4E]@ =~= seq![0x54u8, 0x43, 0x4F, 0x4E]);
        r
    }

    /// The identifier of the year frame in this version (TYE / TYER).
    pub fn year_id(&self) -> (r: Id)
        ensures
            r == id_for(*self, [0x54, 0x59, 0x45], [0x54, 0x59, 0x45, 0x52]),
            r == self.year_id_spec(),
            names_id(r, *self, seq![0x54u8, 0x59, 0x45], seq![0x54u8, 0x59, 0x45, 0x52]),
    {
        let r = self.versioned_id([0x54, 0x59, 0x45], [0x54, 0x59, 0x45, 0x52]);
        assert([0x54, 0x59, 0x45]@ =~= seq![0x54u8, 0x59, 0x45] && [0x54, 0x59, 0x45, 0x52]@ =~= seq![0x54u8, 0x59, 0x45, 0x52]);
        proof {
            match r {
                Id::V2(a) => {
                    assert(a =~= [0x54, 0x59, 0x45]);
                },
                Id::V3(a) => {
                    assert(a =~= [0x54, 0x59, 0x45, 0x52]);
                },
                Id::V4(a) => {
                    assert(a =~= [0x54, 0x59, 0x45, 0x52]);
                },
            }
        }
        r
    }

    /// The identifier of the track number frame in this version (TRK / TRCK).
    pub fn track_id(&self) -> (r: Id)
        ensures
            r == id_for(*self, [0x54, 0x52, 0x4B], [0x54, 0x52, 0x43, 0x4B]),
            r == self.track_id_spec(),
            names_id(r, *self, seq![0x54u8, 0x52, 0x4B], seq![0x54u8, 0x52, 0x43, 0x4B]),
    {
        let r = self.versioned_id([0x54, 0x52, 0x4B], [0x54, 0x52, 0x43, 0x4B]);
        assert([0x54, 0x52, 0x4B]@ =~= seq![0x54u8, 0x52, 0x4B] && [0x54, 0x52, 0x43, 0x4B]@ =~= seq![0x54u8, 0x52, 0x43, 0x4B]);
        proof {
            match r {
                Id::V2(a) => {
                    assert(a =~= [0x54, 0x52, 0x4B]);
                },
                Id::V3(a) => {
                    assert(a =~= [0x54, 0x52, 0x43, 0x4B]);
                },
                Id::V4(a) => {
                    assert(a =~= [0x54, 0x52, 0x43, 0x4B]);
                },
            }
        }
        r
    }

    /// The identifier of the unsynchronised lyrics frame in this version (ULT / USLT).
    pub fn lyrics_id(&self) -> (r: Id)
        ensures
            r == id_for(*self, [0x55, 0x4C, 0x54], [0x55, 0x53, 0x4C, 0x54]),
            names_id(r, *self, seq![0x55u8, 0x4C, 0x54], seq![0x55u8, 0x53, 0x4C, 0x54]),
    {
        let r = self.versioned_id([0x55, 0x4C, 0x54], [0x55, 0x53, 0x4C, 0x54]);
        assert([0x55, 0x4C, 0x54]@ =~= seq![0x55u8, 0x4C, 0x54] && [0x55, 0x53, 0x4C, 0x54]@ =~= seq![0x55u8, 0x53, 0x4C, 0x54]);
        r
    }

    /// The identifier of the attached picture frame in this version (PIC / APIC).
    pub fn picture_id(&self) -> (r: Id)
        ensures
            r == id_for(*self, [0x50, 0x49, 0x43], [0x41, 0x50, 0x49, 0x43]),
            names_id(r, *self, seq![0x50u8, 0x49, 0x43], seq![0x41u8, 0x50, 0x49, 0x43]),
    {
        let r = self.versioned_id([0x50, 0x49, 0x43], [0x41, 0x50, 0x49, 0x43]);
        assert([0x50, 0x49, 0x43]@ =~= seq![0x50u8, 0x49, 0x43] && [0x41, 0x50, 0x49, 0x43]@ =~= seq![0x41u8, 0x50, 0x49, 0x43]);
        r
    }

    /// The identifier of the comment frame in this version (COM / COMM).
    pub fn comment_id(&self) -> (r: Id)
        ensures
            r == id_for(*self, [0x43, 0x4F, 0x4D], [0x43, 0x4F, 0x4D, 0x4D]),
            names_id(r, *self, seq![0x43u8, 0x4F, 0x4D], seq![0x43u8, 0x4F, 0x4D, 0x4D]),
    {
        let r = self.versioned_id([0x43, 0x4F, 0x4D], [0x43, 0x4F, 0x4D, 0x4D]);
        assert([0x43, 0x4F, 0x4D]@ =~= seq![0x43u8, 0x4F, 0x4D] && [0x43, 0x4F, 0x4D, 0x4D]@ =~= seq![0x43u8, 0x4F, 0x4D, 0x4D]);
        r
    }

    /// The identifier of the user-defined text frame in this version (TXX / TXXX).
    pub fn txxx_id(&self) -> (r: Id)
        ensures
            r == id_for(*self, [0x54, 0x58, 0x58], [0x54, 0x58, 0x58, 0x58]),
            r == self.txxx_id_spec(),
            names_id(r, *self, seq![0x54u8, 0x58, 0x58], seq![0x54u8, 0x58, 0x58, 0x58]),
    {
        let r = self.versioned_id([0x54, 0x58, 0x58], [0x54, 0x58, 0x58, 0x58]);
        assert([0x54, 0x58, 0x58]@ =~= seq![0x54u8, 0x58, 0x58] && [0x54, 0x58, 0x58, 0x58]@ =~= seq![0x54u8, 0x58, 0x58, 0x58]);
        proof {
            match r {
                Id::V2(a) => {
                    assert(a =~= [0x54, 0x58, 0x58]);
                },
                Id::V3(a) => {
                    assert(a =~= [0x54, 0x58, 0x58, 0x58]);
                },
                Id::V4(a) => {
                    assert(a =~= [0x54, 0x58, 0x58, 0x58]);
                },
            }
        }
        r
    }
}

impl Version {
    /// The identifier of the year frame in this version (TYE / TYER).
    pub open spec fn year_id_spec(&self) -> Id {
        match self {
            Version::V2 => Id::V2([0x54, 0x59, 0x45]),
            Version::V3 => Id::V3([0x54, 0x59, 0x45, 0x52]),
            Version::V4 => Id::V4([0x54, 0x59, 0x45, 0x52]),
        }
    }

    /// The identifier of the user-defined text frame in this version (TXX / TXXX).
    pub open spec fn txxx_id_spec(&self) -> Id {
        match self {
            Version::V2 => Id::V2([0x54, 0x58, 0x58]),
            Version::V3 => Id::V3([0x54, 0x58, 0x58, 0x58]),
            Version::V4 => Id::V4([0x54, 0x58, 0x58, 0x58]),
        }
    }

    /// The identifier of the track frame in this version (TRK / TRCK).
    pub open spec fn track_id_spec(&self) -> Id {
        match self {
            Version::V2 => Id::V2([0x54, 0x52, 0x4B]),
            Version::V3 => Id::V3([0x54, 0x52, 0x43, 0x4B]),
            Version::V4 => Id::V4([0x54, 0x52, 0x43, 0x4B]),
        }
    }
}

/// The year and track identifiers are those of text frames of their version.
pub proof fn lemma_year_track_ids(v: Version)
    ensures
        is_text_spec(v.year_id_spec()),
        is_text_spec(v.track_id_spec()),
        id_version(v.year_id_spec()) == v,
        id_version(v.track_id_spec()) == v,
{
    let y = id_name(v.year_id_spec());
    let t = id_name(v.track_id_spec());
    assert(y[1] == 0x59 && t[1] == 0x52);
    assert(y != seq![0x54u8, 0x58, 0x58] && y != seq![0x54u8, 0x58, 0x58, 0x58]) by {
        assert(seq![0x54u8, 0x58, 0x58][1] == 0x58);
        assert(seq![0x54u8, 0x58, 0x58, 0x58][1] == 0x58);
    }
    assert(t != seq![0x54u8, 0x58, 0x58] && t != seq![0x54u8, 0x58, 0x58, 0x58]) by {
        assert(seq![0x54u8, 0x58, 0x58][1] == 0x58);
        assert(seq![0x54u8, 0x58, 0x58, 0x58][1] == 0x58);
    }
}

/// The user-defined text identifier belongs to its version.
pub proof fn lemma_txxx_id(v: Version)
    ensures
        id_version(v.txxx_id_spec()) == v,
{
}

} // verus!
