//! File-level tag assembly: an ID3v2 tag at the start of a file, an ID3v1
//! tag (with its extended part) at its end, and the audio data between.
use vstd::prelude::*;
use crate::id3v1;
use crate::id3v2;
use crate::error::Error;
use crate::frame::{Frame, FrameValue};
use crate::version::id_name;

verus! {

/// The ID3v1 and ID3v2 tags of a file.
#[derive(Debug, Clone, PartialEq, Eq)]
pub struct FileTags {
    /// The ID3v1 tag (with ID3v1.1 and extended data), if any.
    pub v1: Option<id3v1::Tag>,
    /// The ID3v2 tag at the start of the file, if any.
    pub v2: Option<id3v2::Tag>,
}

/// The bytes after the ID3v2 tag at the start of `data`, or all of them when
/// no tag starts there.
pub open spec fn after_v2_tag(data: Seq<u8>) -> Seq<u8> {
    if id3v2::has_magic(data) && data.len() >= 10 {
        let end = 10 + id3v2::tag_size(data);
        if end <= data.len() { data.subrange(end as int, data.len() as int) } else { seq![] }
    } else {
        data
    }
}

impl FileTags {
    /// Reads the ID3v2 tag at the start of `data`. Fails where no tag starts
    /// there, or where the tag is malformed.
    pub fn read_from(data: &[u8]) -> (r: Result<FileTags, Error>)
        ensures
            !id3v2::has_magic(data@) ==> r is Err,
            id3v2::tag_readable(data@) ==> r is Ok,
            r matches Ok(ft) ==> ft.v1 is None,
            r matches Ok(ft) ==> (ft.v2 matches Some(t) && id3v2::tag_read_as(data@, t)),
    {
        match id3v2::read_tag(data) {
            Ok(Some(t)) => Ok(FileTags { v1: None, v2: Some(t) }),
            Ok(None) => Err(Error::new(crate::error::ErrorKind::InvalidTag, "buffer does not contain an ID3 tag")),
            Err(e) => Err(e),
        }
    }

    /// Returns whether the data may hold an ID3v2 tag at its start.
    pub fn is_candidate(data: &[u8]) -> (r: bool)
        ensures
            r == id3v2::has_magic(data@),
    {
        id3v2::probe_tag(data)
    }

    /// The data after the ID3v2 tag at its start, or all of it where no tag
    /// starts there.
    pub fn skip_metadata(data: &[u8]) -> (r: Vec<u8>)
        ensures
            r@ == after_v2_tag(data@),
    {
        if id3v2::probe_tag(data) && data.len() >= 10 {
            let end = unsynchsafe_size(data) + 10;
            if end <= data.len() {
                crate::util::copy_range(data, end, data.len())
            } else {
                Vec::new()
            }
        } else {
            vstd::slice::slice_to_vec(data)
        }
    }

    /// Writes the ID3v2 tag with 2048 bytes of padding, after removing the
    /// frames that ask to be dropped when the file is altered or whose kind
    /// depends on the audio data. Writes nothing where there is no ID3v2 tag.
    pub fn write_to(&mut self) -> (r: Result<Vec<u8>, Error>)
        ensures
            final(self).v1 == old(self).v1,
            final(self).v2 matches Some(t) ==> old(self).v2 matches Some(o)
                && crate::id3v2::frames_view(t.frames@) == kept_frames(crate::id3v2::frames_view(o.frames@)),
            final(self).v2 is None ==> old(self).v2 is None,
            final(self).v2 is None ==> (r matches Ok(b) && b@.len() == 0),
            final(self).v2 matches Some(t) ==> (r is Ok <==> id3v2::tag_write_ok(t, false, 2048)),
            r matches Ok(b) ==> (final(self).v2 matches Some(t) ==> b@ == id3v2::tag_bytes(t, false, 2048)),
    {
        match self.v2.take() {
            Some(mut t) => {
                drop_store_frames(&mut t);
                let bytes = t.write_with_padding(false, 2048);
                self.v2 = Some(t);
                bytes
            },
            None => Ok(Vec::new()),
        }
    }

    /// Create a `FileTags` from tags already parsed.
    pub fn from_tags(v1: Option<id3v1::Tag>, v2: Option<id3v2::Tag>) -> (r: FileTags)
        ensures
            r.v1 == v1,
            r.v2 == v2,
    {
        FileTags { v1, v2 }
    }
}

/// Where the audio data of a file ends: before the extended ID3v1 tag if
/// there is one, else before the ID3v1 tag if there is one, else at the end;
/// never before `start`.
pub open spec fn audio_end(d: Seq<u8>, start: nat) -> nat {
    let n = d.len();
    let e: nat = if id3v1::ends_with_tag(d) {
        if n >= 355 && id3v1::starts_xtag(d.subrange(n - 355, n - 128)) { (n - 355) as nat } else { (n - 128) as nat }
    } else {
        n
    };
    if e < start { start } else { e }
}

/// The tags of a file and where its audio data lies between them.
#[derive(Debug, Clone, PartialEq, Eq)]
pub struct TaggedFile {
    /// The ID3v1 tag (with ID3v1.1 and extended data), if any.
    pub v1: Option<id3v1::Tag>,
    /// The ID3v2 tag at the start of the file, if any.
    pub v2: Option<id3v2::Tag>,
    /// Where the audio data starts.
    pub data_start: usize,
    /// Where the audio data ends.
    pub data_end: usize,
}

/// The identifiers of frames that are dropped when the audio data of a file
/// changes: AENC ETCO EQUA MLLT POSS SYLT SYTC RVAD TENC TLEN TSIZ.
pub open spec fn discarded_on_file_change(name: Seq<u8>) -> bool {
    ||| name == seq![0x41u8, 0x45, 0x4E, 0x43]
    ||| name == seq![0x45u8, 0x54, 0x43, 0x4F]
    ||| name == seq![0x45u8, 0x51, 0x55, 0x41]
    ||| name == seq![0x4Du8, 0x4C, 0x4C, 0x54]
    ||| name == seq![0x50u8, 0x4F, 0x53, 0x53]
    ||| name == seq![0x53u8, 0x59, 0x4C, 0x54]
    ||| name == seq![0x53u8, 0x59, 0x54, 0x43]
    ||| name == seq![0x52u8, 0x56, 0x41, 0x44]
    ||| name == seq![0x54u8, 0x45, 0x4E, 0x43]
    ||| name == seq![0x54u8, 0x4C, 0x45, 0x4E]
    ||| name == seq![0x54u8, 0x53, 0x49, 0x5A]
}

/// Whether a frame is dropped when the file is rewritten.
pub open spec fn dropped_on_store(f: FrameValue) -> bool {
    f.flags.tag_alter_preservation || f.flags.file_alter_preservation || discarded_on_file_change(id_name(f.id))
}

/// The frames kept when the file is rewritten.
pub open spec fn kept_frames(fs: Seq<FrameValue>) -> Seq<FrameValue>
    decreases fs.len(),
{
    if fs.len() == 0 {
        fs
    } else if dropped_on_store(fs[0]) {
        kept_frames(fs.drop_first())
    } else {
        seq![fs[0]] + kept_frames(fs.drop_first())
    }
}

fn is_discarded(name: &[u8]) -> (r: bool)
    ensures
        r == discarded_on_file_change(name@),
{
    if name.len() != 4 {
        return false;
    }
    let k = (name[0], name[1], name[2], name[3]);
    let r = match k {
        (0x41, 0x45, 0x4E, 0x43) | (0x45, 0x54, 0x43, 0x4F) | (0x45, 0x51, 0x55, 0x41) | (0x4D, 0x4C, 0x4C, 0x54)
        | (0x50, 0x4F, 0x53, 0x53) | (0x53, 0x59, 0x4C, 0x54) | (0x53, 0x59, 0x54, 0x43) | (0x52, 0x56, 0x41, 0x44)
        | (0x54, 0x45, 0x4E, 0x43) | (0x54, 0x4C, 0x45, 0x4E) | (0x54, 0x53, 0x49, 0x5A) => true,
        _ => false,
    };
    assert(name@ =~= seq![name@[0], name@[1], name@[2], name@[3]]);
    r
}

impl TaggedFile {
    /// Returns whether the data may hold an ID3v2 tag at its start.
    pub fn is_candidate(data: &[u8]) -> (r: bool)
        ensures
            r == id3v2::has_magic(data@),
    {
        id3v2::probe_tag(data)
    }

    /// Reads the tags of a whole file: an ID3v2 tag at its start, and an ID3v1
    /// tag with any extended part at its end.
    pub fn from_bytes(data: &[u8]) -> (r: Result<TaggedFile, Error>)
        ensures
            r matches Ok(t) ==> t.data_start <= t.data_end <= data@.len(),
            r matches Ok(t) ==> (t.v2 is Some <==> id3v2::has_magic(data@)),
            r matches Ok(t) ==> (t.v2 is Some ==> t.data_start == 10 + id3v2::tag_size(data@)),
            r matches Ok(t) ==> (t.v2 is None ==> t.data_start == 0),
            r matches Ok(t) ==> (t.v2 matches Some(x) ==> id3v2::tag_read_as(data@, x)),
            r matches Ok(t) ==> (t.v1 is Some <==> id3v1::ends_with_tag(data@)),
            r matches Ok(t) ==> (t.v1 matches Some(x) ==> id3v1::v1_read_as(data@, x)),
            r matches Ok(t) ==> t.data_end == audio_end(data@, t.data_start as nat),
            !id3v2::has_magic(data@) || id3v2::tag_readable(data@) ==> r is Ok,
    {
        let n = data.len();
        let v2 = match id3v2::read_tag(data) {
            Ok(t) => t,
            Err(e) => {
                return Err(e);
            },
        };
        let start: usize = match &v2 {
            Some(_) => {
                (unsynchsafe_size(data)) + 10
            },
            None => 0,
        };
        let mut end: usize = n;
        let mut v1: Option<id3v1::Tag> = None;
        if n >= 128 {
            let from = if n >= 355 { n - 355 } else { 0 };
            let slice = vstd::slice::slice_subrange(data, from, n);
            proof {
                let m = slice@.len() as int;
                assert(slice@.subrange(m - 128, m) =~= data@.subrange(n - 128, n as int));
                if n >= 355 {
                    assert(slice@.subrange(m - 355, m - 128) =~= data@.subrange(n - 355, n - 128));
                }
            }
            match id3v1::read(slice) {
                Ok(Some(t)) => {
                    let has_x = n >= 355 && id3v1::probe_xtag(vstd::slice::slice_subrange(data, n - 355, n - 128));
                    end = if has_x { n - 355 } else { n - 128 };
                    v1 = Some(t);
                },
                Ok(None) => {},
                Err(e) => {
                    return Err(e);
                },
            }
        }
        if end < start {
            end = start;
        }
        Ok(TaggedFile { v1, v2, data_start: start, data_end: end })
    }

    /// Writes the file anew: the ID3v2 tag with 2048 bytes of padding,
    /// the audio data from `data`, then the extended and basic ID3v1 tags.
    /// Frames that ask to be dropped when the file is altered, or whose kind
    /// depends on the audio data, are removed from the ID3v2 tag first.
    pub fn write_to(&mut self, data: &[u8], unsynchronization: bool) -> (r: Result<Vec<u8>, Error>)
        requires
            old(self).data_start <= old(self).data_end <= data@.len(),
        ensures
            final(self).v1 == old(self).v1,
            final(self).v2 is None <==> old(self).v2 is None,
            r is Ok <==> (final(self).v2 matches Some(t) ==> id3v2::tag_write_ok(t, unsynchronization, 2048)),
            final(self).v2 matches Some(t) ==> old(self).v2 matches Some(o)
                && crate::id3v2::frames_view(t.frames@) == kept_frames(crate::id3v2::frames_view(o.frames@)),
            r matches Ok(b) ==> {
                let v2_bytes = match final(self).v2 {
                    Some(t) => id3v2::tag_bytes(t, unsynchronization, 2048),
                    None => seq![],
                };
                let v1_bytes = match final(self).v1 {
                    Some(t) => (if t.has_extended_data_spec() { id3v1::xtag_bytes(t) } else { seq![] }) + id3v1::tag_bytes(t, true),
                    None => seq![],
                };
                b@ == v2_bytes + data@.subrange(old(self).data_start as int, old(self).data_end as int) + v1_bytes
            },
    {
        let mut out: Vec<u8> = Vec::new();
        match self.v2.take() {
            Some(mut t) => {
                drop_store_frames(&mut t);
                let bytes = t.write_with_padding(unsynchronization, 2048);
                self.v2 = Some(t);
                match bytes {
                    Ok(mut b) => out.append(&mut b),
                    Err(e) => {
                        return Err(e);
                    },
                }
            },
            None => {},
        }
        let ghost head = out@;
        let mut audio = crate::util::copy_range(data, self.data_start, self.data_end);
        out.append(&mut audio);
        match &self.v1 {
            Some(t) => {
                if t.has_extended_data() {
                    let mut x = t.write_extended();
                    out.append(&mut x);
                }
                let mut b = t.write(true);
                out.append(&mut b);
            },
            None => {},
        }
        Ok(out)
    }
}

impl id3v1::Tag {
    /// Whether the tag holds information that only the extended tag stores.
    pub open spec fn has_extended_data_spec(&self) -> bool {
        self.title@.len() > 30 || self.artist@.len() > 30 || self.album@.len() > 30 || self.speed > 0
            || self.genre_str@.len() > 0 || self.start_time.spec_seconds() > 0 || self.end_time.spec_seconds() > 0
    }
}

/// The size that the tag header at the start of `data` states.
fn unsynchsafe_size(data: &[u8]) -> (r: usize)
    requires
        data@.len() >= 10,
    ensures
        r == id3v2::tag_size(data@),
        r < 0x1000_0000,
{
    crate::util::unsynchsafe(((data[6] as u32) << 24 | (data[7] as u32) << 16 | (data[8] as u32) << 8 | data[9] as u32) as u32) as usize
}

/// Removes the frames that are dropped when the file is rewritten.
fn drop_store_frames(t: &mut id3v2::Tag)
    ensures
        crate::id3v2::frames_view(final(t).frames@) == kept_frames(crate::id3v2::frames_view(old(t).frames@)),
        final(t).version == old(t).version,
        final(t).flags == old(t).flags,
        final(t).padding_len == old(t).padding_len,
        final(t).extended_header == old(t).extended_header,
{
    let ghost orig = t.frames@;
    let mut rest: Vec<Frame> = Vec::new();
    std::mem::swap(&mut t.frames, &mut rest);
    assert(crate::id3v2::frames_view(t.frames@) + kept_frames(crate::id3v2::frames_view(rest@)) =~= kept_frames(crate::id3v2::frames_view(orig)));
    while rest.len() > 0
        invariant
            crate::id3v2::frames_view(t.frames@) + kept_frames(crate::id3v2::frames_view(rest@)) == kept_frames(crate::id3v2::frames_view(orig)),
            t.version == old(t).version,
            t.flags == old(t).flags,
            t.padding_len == old(t).padding_len,
            t.extended_header == old(t).extended_header,
            orig == old(t).frames@,
        decreases rest@.len(),
    {
        let ghost before = rest@;
        let f = rest.remove(0);
        assert(crate::id3v2::frames_view(before).drop_first() =~= crate::id3v2::frames_view(rest@));
        if !(f.tag_alter_preservation() || f.file_alter_preservation() || is_discarded(f.id.name())) {
            let ghost prev = t.frames@;
            let ghost fv = f@;
            t.frames.push(f);
            assert(crate::id3v2::frames_view(t.frames@) =~= crate::id3v2::frames_view(prev).push(fv));
            assert(crate::id3v2::frames_view(t.frames@) + kept_frames(crate::id3v2::frames_view(rest@)) =~= crate::id3v2::frames_view(prev) + (seq![fv] + kept_frames(crate::id3v2::frames_view(rest@))));
        }
    }
    assert(crate::id3v2::frames_view(rest@) =~= Seq::<FrameValue>::empty());
    assert(crate::id3v2::frames_view(t.frames@) + Seq::<FrameValue>::empty() =~= crate::id3v2::frames_view(t.frames@));
}

} // verus!
