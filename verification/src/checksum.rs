//! The Adler-32 checksum stored in each File record.
//!
//! The checksum itself is computed by the `adler32` crate; this module names
//! its result so that the writer can state which bytes a stored checksum
//! covers.

use vstd::prelude::*;

verus! {

/// The Adler-32 checksum of `s`, as the `adler32` crate computes it.
pub uninterp spec fn adler32_of(s: Seq<u8>) -> u32;

/// The Adler-32 checksum of one buffer.
///
/// Relies on `adler32::RollingAdler32::from_buffer` and `hash`.
#[verifier::external_body]
pub fn adler32_hash(data: &[u8]) -> (r: u32)
    ensures
        r == adler32_of(data@),
{
    adler32::RollingAdler32::from_buffer(data).hash()
}

/// Extends a running Adler-32 checksum by `data`.
///
/// Relies on `adler32::RollingAdler32::from_value`, `update_buffer` and
/// `hash`: the rolling state is exactly the hash value, so feeding `data` to
/// a state whose hash is the checksum of some prefix yields the checksum of
/// that prefix followed by `data`.
#[verifier::external_body]
pub fn adler32_extend(h: u32, data: &[u8]) -> (r: u32)
    ensures
        forall|prefix: Seq<u8>|
            h == adler32_of(prefix) ==> r == adler32_of(prefix + data@),
{
    let mut rolling = adler32::RollingAdler32::from_value(h);
    rolling.update_buffer(data);
    rolling.hash()
}

} // verus!
