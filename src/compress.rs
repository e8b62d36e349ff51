//! zlib compression of frame bodies, through the flate2 crate.
use vstd::prelude::*;
use std::io::{Read, Write};

verus! {

/// The zlib stream that flate2 writes for some bytes at the default level.
pub uninterp spec fn deflate_of(data: Seq<u8>) -> Seq<u8>;

/// The bytes that a zlib stream inflates to, or `None` where it is not a valid
/// zlib stream.
pub uninterp spec fn inflate_of(data: Seq<u8>) -> Option<Seq<u8>>;

/// Relies on `flate2::write::ZlibEncoder` at the default level: writing into a
/// `Vec` gives the zlib stream of the input, which depends on the input alone,
/// and cannot fail, since writing into a `Vec` never does.
#[verifier::external_body]
pub(crate) fn zlib_compress(data: &[u8]) -> (r: Option<Vec<u8>>)
    ensures
        r is Some,
        r matches Some(v) ==> v@ == deflate_of(data@),
{
    let mut encoder = flate2::write::ZlibEncoder::new(Vec::new(), flate2::Compression::default());
    match encoder.write_all(data) {
        Ok(()) => encoder.finish().ok(),
        Err(_) => None,
    }
}

/// Relies on `flate2::read::ZlibDecoder`: reading a slice to its end gives the
/// inflated bytes, or an error where the input is not a valid zlib stream.
#[verifier::external_body]
pub(crate) fn zlib_decompress(data: &[u8]) -> (r: Option<Vec<u8>>)
    ensures
        r is Some <==> inflate_of(data@) is Some,
        r matches Some(v) ==> inflate_of(data@) == Some(v@),
{
    let mut decoder = flate2::read::ZlibDecoder::new(data);
    let mut out = Vec::new();
    match decoder.read_to_end(&mut out) {
        Ok(_) => Some(out),
        Err(_) => None,
    }
}

} // verus!
