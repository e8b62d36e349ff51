//! Reading, writing and converting ID3v1 and ID3v2 metadata tags.
//!
//! The byte codecs (synchsafe integers, unsynchronization, text encodings),
//! the field and frame codecs, the frame catalog and the tag model are all
//! verified against the contracts stated on each function.
use vstd::prelude::*;

pub mod bignum;
mod compress;
pub mod encoding;
pub mod error;
pub mod field;
pub mod filetags;
pub mod frame;
pub mod frameinfo;
pub mod id3v1;
pub mod id3v2;
pub mod roundtrip;
pub mod simple;
pub mod text;
pub mod util;
pub mod version;

pub use filetags::{FileTags, TaggedFile};

verus! {
}
