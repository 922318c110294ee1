//! The zlib codec behind the archive's compressed index and segments.
//!
//! Compression and decompression are done by the `flate2` crate; this module
//! names their results so that contracts elsewhere can speak about them.

use crate::{XP3Error, XP3ErrorKind};
use std::io::Read;
use vstd::prelude::*;

verus! {

/// The zlib stream that `flate2`'s `ZlibEncoder` at the fast compression
/// level produces for `s`. A fixed deterministic function of the input.
pub uninterp spec fn deflate_of(s: Seq<u8>) -> Seq<u8>;

/// What decompressing the zlib stream `s` through `flate2`'s `ZlibDecoder`
/// yields when at most `limit` output bytes are drawn: `None` when the
/// decoder reports corruption before `limit` bytes came out, otherwise the
/// decompressed bytes, cut off at `limit`.
pub uninterp spec fn inflate_prefix(s: Seq<u8>, limit: int) -> Option<Seq<u8>>;

/// Compresses `data` as a zlib stream.
///
/// Relies on `flate2::read::ZlibEncoder` with `Compression::fast`: reading
/// the encoder of an in-memory slice to its end performs no I/O and cannot
/// fail, and `flate2::read::ZlibDecoder` recovers exactly the compressed
/// input from the produced stream, however much of it is requested.
#[verifier::external_body]
pub fn deflate(data: &[u8]) -> (r: Vec<u8>)
    ensures
        r@ == deflate_of(data@),
        forall|limit: int|
            0 <= limit ==> #[trigger] inflate_prefix(r@, limit) == Some(
                if limit <= data@.len() {
                    data@.take(limit)
                } else {
                    data@
                },
            ),
{
    let mut encoder = flate2::read::ZlibEncoder::new(data, flate2::Compression::fast());
    let mut out = Vec::new();
    encoder.read_to_end(&mut out).expect("reading from an in-memory encoder");
    out
}

/// Decompresses at most `limit` bytes out of the zlib stream `data`.
///
/// Relies on `flate2::read::ZlibDecoder`: capped at `limit` output bytes it
/// either reports corruption or returns the decompressed prefix, the same
/// answer for the same input every time.
#[verifier::external_body]
pub fn inflate(data: &[u8], limit: u64) -> (r: Result<Vec<u8>, XP3Error>)
    ensures
        r is Ok <==> inflate_prefix(data@, limit as int) is Some,
        r matches Ok(v) ==> Some(v@) == inflate_prefix(data@, limit as int),
        r matches Err(e) ==> e.spec_kind() == XP3ErrorKind::Io,
{
    let decoder = flate2::read::ZlibDecoder::new(data);
    let mut out = Vec::new();
    match decoder.take(limit).read_to_end(&mut out) {
        Ok(_) => Ok(out),
        Err(_) => Err(XP3Error::new(XP3ErrorKind::Io)),
    }
}

} // verus!
