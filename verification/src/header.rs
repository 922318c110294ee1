//! The archive-level preamble: a header that is either the bare legacy form
//! or the versioned 21-byte form introduced by a fixed marker.

use crate::le::{
    le32_at, le32_bytes, le64_at, le64_bytes, lemma_le32_at_of_bytes, lemma_le32_round_trip,
    lemma_le64_at_of_bytes, lemma_le64_round_trip, read_u32, read_u64, write_u32, write_u64,
};
use crate::{XP3Error, XP3ErrorKind, XP3_CURRENT_VER_IDENTIFIER, XP3_VERSION_IDENTIFIER};
use vstd::prelude::*;

verus! {

/// Which of the two header forms an archive carries.
///
/// A header starting with the version marker is `Current`; anything else is
/// `Old`, which occupies no bytes at all.
#[derive(Debug, Copy, Clone, PartialEq, Eq, Structural)]
pub enum XP3HeaderVersion {
    /// The legacy form: no header bytes, the index-offset pointer follows
    /// directly.
    Old,
    /// The versioned form: minor version plus the distance from the pointer
    /// position to the index-offset pointer itself.
    Current { minor_version: u32, index_size_offset: u64 },
}

/// The archive header.
#[derive(Debug, Copy, Clone, PartialEq, Eq, Structural)]
pub struct XP3Header {
    /// The version form this header carries.
    pub version: XP3HeaderVersion,
}

/// The bytes a header occupies on the wire: nothing for the legacy form,
/// marker + minor version + identifier byte + index-size offset for the
/// versioned form.
pub open spec fn header_bytes(h: XP3Header) -> Seq<u8> {
    match h.spec_version() {
        XP3HeaderVersion::Old => Seq::empty(),
        XP3HeaderVersion::Current { minor_version, index_size_offset } => le64_bytes(
            XP3_CURRENT_VER_IDENTIFIER,
        ) + le32_bytes(minor_version) + seq![XP3_VERSION_IDENTIFIER] + le64_bytes(
            index_size_offset,
        ),
    }
}

/// What decoding a header at `pos` in `s` yields: the bytes consumed and the
/// header, or the error. The versioned form announces itself by the marker;
/// any other eight bytes mean the legacy form and nothing is consumed.
pub open spec fn parse_header(s: Seq<u8>, pos: int) -> Result<(int, XP3Header), XP3ErrorKind> {
    if pos + 8 > s.len() {
        Err(XP3ErrorKind::Io)
    } else if le64_at(s, pos) == XP3_CURRENT_VER_IDENTIFIER {
        if pos + 21 > s.len() {
            Err(XP3ErrorKind::Io)
        } else if s[pos + 12] != XP3_VERSION_IDENTIFIER {
            Err(XP3ErrorKind::InvalidHeader)
        } else {
            Ok(
                (
                    21,
                    XP3Header {
                        version: XP3HeaderVersion::Current {
                            minor_version: le32_at(s, pos + 8),
                            index_size_offset: le64_at(s, pos + 13),
                        },
                    },
                ),
            )
        }
    } else {
        Ok((0, XP3Header { version: XP3HeaderVersion::Old }))
    }
}

impl XP3Header {
    /// The carried version, for contracts.
    pub open spec fn spec_version(&self) -> XP3HeaderVersion {
        self.version
    }

    /// Makes a header carrying `version`.
    pub fn new(version: XP3HeaderVersion) -> (r: Self)
        ensures
            r.spec_version() == version,
    {
        XP3Header { version }
    }

    /// The carried version.
    pub fn version(&self) -> (r: XP3HeaderVersion)
        ensures
            r == self.spec_version(),
    {
        self.version
    }

    /// Replaces the carried version.
    pub fn set_version(&mut self, version: XP3HeaderVersion)
        ensures
            final(self).spec_version() == version,
    {
        self.version = version;
    }

    /// Decodes a header from `pos` in `data`, per [`parse_header`].
    /// Returns the bytes consumed and the header.
    pub fn from_bytes(data: &[u8], pos: usize) -> (r: Result<(u64, Self), XP3Error>)
        ensures
            r matches Ok(v) ==> parse_header(data@, pos as int) == Ok::<_, XP3ErrorKind>(
                (v.0 as int, v.1),
            ),
            r matches Err(e) ==> parse_header(data@, pos as int) == Err::<(int, XP3Header), _>(
                e.spec_kind(),
            ),
    {
        let n = data.len();
        if pos >= n || n - pos < 8 {
            return Err(XP3Error::new(XP3ErrorKind::Io));
        }
        let identifier = read_u64(data, pos);
        if identifier == XP3_CURRENT_VER_IDENTIFIER {
            if n - pos < 21 {
                return Err(XP3Error::new(XP3ErrorKind::Io));
            }
            let minor_version = read_u32(data, pos + 8);
            if data[pos + 12] != XP3_VERSION_IDENTIFIER {
                return Err(XP3Error::new(XP3ErrorKind::InvalidHeader));
            }
            let index_size_offset = read_u64(data, pos + 13);
            Ok(
                (
                    21,
                    XP3Header {
                        version: XP3HeaderVersion::Current { minor_version, index_size_offset },
                    },
                ),
            )
        } else {
            Ok((0, XP3Header { version: XP3HeaderVersion::Old }))
        }
    }

    /// Appends the header's wire form to `out`. Returns the bytes written:
    /// 0 for the legacy form, 21 for the versioned form.
    pub fn write_bytes(&self, out: &mut Vec<u8>) -> (r: u64)
        ensures
            final(out)@ == old(out)@ + header_bytes(*self),
            r == header_bytes(*self).len(),
    {
        match self.version {
            XP3HeaderVersion::Old => {
                proof {
                    assert(out@ =~= old(out)@ + header_bytes(*self));
                }
                0
            },
            XP3HeaderVersion::Current { minor_version, index_size_offset } => {
                write_u64(out, XP3_CURRENT_VER_IDENTIFIER);
                write_u32(out, minor_version);
                out.push(XP3_VERSION_IDENTIFIER);
                write_u64(out, index_size_offset);
                proof {
                    lemma_le32_round_trip();
                    lemma_le64_round_trip();
                    assert(out@ =~= old(out)@ + header_bytes(*self));
                }
                21
            },
        }
    }
}

/// Decoding what `write_bytes` wrote gives the header back: the versioned
/// form always, the legacy form whenever the eight bytes that follow it do
/// not spell the version marker (the legacy header is self-describing only
/// through their absence).
pub proof fn lemma_header_round_trip(h: XP3Header, tail: Seq<u8>)
    requires
        h.spec_version() is Old ==> tail.len() >= 8 && le64_at(tail, 0)
            != XP3_CURRENT_VER_IDENTIFIER,
    ensures
        parse_header(header_bytes(h) + tail, 0) == Ok::<_, XP3ErrorKind>(
            (header_bytes(h).len() as int, h),
        ),
{
    lemma_le64_round_trip();
    lemma_le32_round_trip();
    let s = header_bytes(h) + tail;
    match h.spec_version() {
        XP3HeaderVersion::Old => {
            assert(s =~= tail);
            assert(header_bytes(h).len() == 0);
            assert(parse_header(s, 0) == Ok::<_, XP3ErrorKind>((0int, h)));
        },
        XP3HeaderVersion::Current { minor_version, index_size_offset } => {
            assert(header_bytes(h).len() == 21);
            assert(s.len() >= 21);
            assert(s.subrange(0, 8) =~= le64_bytes(XP3_CURRENT_VER_IDENTIFIER));
            lemma_le64_at_of_bytes(s, 0, XP3_CURRENT_VER_IDENTIFIER);
            assert(s.subrange(8, 12) =~= le32_bytes(minor_version));
            lemma_le32_at_of_bytes(s, 8, minor_version);
            assert(s[12] == XP3_VERSION_IDENTIFIER);
            assert(s.subrange(13, 21) =~= le64_bytes(index_size_offset));
            lemma_le64_at_of_bytes(s, 13, index_size_offset);
            assert(parse_header(s, 0) == Ok::<_, XP3ErrorKind>((21int, h)));
        },
    }
}

} // verus!
