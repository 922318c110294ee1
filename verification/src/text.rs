//! The UTF-16LE form of entry names inside Info sub-records.
//!
//! The conversion is done by the `encoding` crate; this module names both
//! directions so that the Info codec can state exactly which bytes a name
//! becomes and which name a byte run decodes to.

use encoding::Encoding;
use vstd::prelude::*;

verus! {

/// The UTF-16LE bytes that the `encoding` crate produces for `s`.
pub uninterp spec fn utf16_bytes_of(s: Seq<char>) -> Seq<u8>;

/// The string that the `encoding` crate decodes the UTF-16LE bytes `b` to,
/// with ill-formed sequences replaced.
pub uninterp spec fn utf16_chars_of(b: Seq<u8>) -> Seq<char>;

/// Encodes a name as UTF-16LE.
///
/// Relies on `encoding::all::UTF_16LE`'s `encode` with
/// `EncoderTrap::Replace`: every Rust string is valid Unicode, so encoding
/// cannot fail, yields two bytes per UTF-16 code unit, and decoding the
/// result with replacement gives the input back unchanged.
#[verifier::external_body]
pub fn utf16_encode(s: &str) -> (r: Vec<u8>)
    ensures
        r@ == utf16_bytes_of(s@),
        r@.len() % 2 == 0,
        utf16_chars_of(r@) == s@,
        s@.len() == 0 ==> r@.len() == 0,
{
    encoding::all::UTF_16LE.encode(s, encoding::EncoderTrap::Replace).expect(
        "replacement encoding cannot fail",
    )
}

/// Decodes UTF-16LE bytes into a string, replacing ill-formed sequences.
///
/// Relies on `encoding::all::UTF_16LE`'s `decode` with
/// `DecoderTrap::Replace`, which cannot fail.
#[verifier::external_body]
pub fn utf16_decode(b: &[u8]) -> (r: String)
    ensures
        r@ == utf16_chars_of(b@),
        b@.len() == 0 ==> r@.len() == 0,
{
    encoding::all::UTF_16LE.decode(b, encoding::DecoderTrap::Replace).expect(
        "replacement decoding cannot fail",
    )
}

} // verus!
