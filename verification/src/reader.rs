//! The reader side: checking the magic, locating the index through the
//! header's offset pointer, and decoding stored segments.

use crate::archive::XP3Archive;
use crate::header::{header_bytes, parse_header, XP3Header, XP3HeaderVersion};
use crate::index::file::{IndexSegmentFlag, XP3FileIndexSegment};
use crate::index_set::{parse_index_set, XP3IndexSet, XP3IndexSetView};
use crate::le::{le32_bytes, le64_at, le64_bytes, read_u64};
use crate::zlib::{inflate, inflate_prefix};
use crate::{
    spec_xp3_magic, VirtualXP3, VirtualXP3View, XP3Error, XP3ErrorKind,
    XP3_CURRENT_VER_IDENTIFIER,
};
use vstd::prelude::*;
use vstd::slice::slice_subrange;

verus! {

/// What decoding a whole container from the archive origin yields: the
/// header and the index set. The first ten bytes must be the magic, a
/// version-selector byte follows, then the header; the index-offset pointer
/// sits after the header, pushed back by the versioned header's
/// `index_size_offset`; the index set sits at the offset the pointer holds,
/// relative to the origin.
pub open spec fn parse_container(s: Seq<u8>) -> Result<VirtualXP3View, XP3ErrorKind> {
    if s.len() < 10 {
        Err(XP3ErrorKind::Io)
    } else if s.subrange(0, 10) != spec_xp3_magic() {
        Err(XP3ErrorKind::InvalidFile)
    } else if s.len() < 11 {
        Err(XP3ErrorKind::Io)
    } else {
        match parse_header(s, 11) {
            Err(e) => Err(e),
            Ok((consumed, header)) => {
                let pointer_pos = 11 + consumed + (match header.spec_version() {
                    XP3HeaderVersion::Old => 0,
                    XP3HeaderVersion::Current { index_size_offset, .. } => index_size_offset as int,
                });
                if pointer_pos + 8 > s.len() {
                    Err(XP3ErrorKind::Io)
                } else {
                    match parse_index_set(s, le64_at(s, pointer_pos) as int) {
                        Err(e) => Err(e),
                        Ok((_, index_set)) => Ok(VirtualXP3View { header, index_set }),
                    }
                }
            },
        }
    }
}

/// What one stored segment contributes to an unpacked file: its raw bytes
/// when uncompressed, their decompressed form (cut at `original_size`) when
/// compressed; nothing when the segment reaches outside the archive or does
/// not decompress.
pub open spec fn segment_output(data: Seq<u8>, seg: XP3FileIndexSegment) -> Option<Seq<u8>> {
    if seg.data_offset + seg.saved_size > data.len() {
        None
    } else {
        let raw = data.subrange(
            seg.data_offset as int,
            seg.data_offset + seg.saved_size,
        );
        match seg.flag {
            IndexSegmentFlag::UnCompressed => Some(raw),
            IndexSegmentFlag::Compressed => inflate_prefix(raw, seg.original_size as int),
        }
    }
}

/// The reader over in-memory archive bytes.
pub struct XP3Reader;

impl XP3Reader {
    /// Checks that `data` starts with the ten magic bytes: `InvalidFile`
    /// when they differ, `Io` when fewer than ten bytes are there.
    pub fn check_archive(data: &[u8]) -> (r: Result<(), XP3Error>)
        ensures
            r is Ok <==> data@.len() >= 10 && data@.subrange(0, 10) == spec_xp3_magic(),
            r matches Err(e) ==> (if data@.len() < 10 {
                e.spec_kind() == XP3ErrorKind::Io
            } else {
                e.spec_kind() == XP3ErrorKind::InvalidFile
            }),
    {
        if data.len() < 10 {
            return Err(XP3Error::new(XP3ErrorKind::Io));
        }
        let magic = crate::xp3_magic();
        let mut i: usize = 0;
        while i < 10
            invariant
                i <= 10,
                data@.len() >= 10,
                magic@ == spec_xp3_magic(),
                forall|j: int| 0 <= j < i ==> data@[j] == spec_xp3_magic()[j],
            decreases 10 - i,
        {
            if data[i] != magic[i] {
                proof {
                    assert(data@.subrange(0, 10)[i as int] != spec_xp3_magic()[i as int]);
                }
                return Err(XP3Error::new(XP3ErrorKind::InvalidFile));
            }
            i = i + 1;
        }
        proof {
            assert(data@.subrange(0, 10) =~= spec_xp3_magic());
        }
        Ok(())
    }

    /// Decodes the header and index set of the container held in `data`,
    /// per [`parse_container`].
    pub fn read_container(data: &[u8]) -> (r: Result<VirtualXP3, XP3Error>)
        ensures
            r matches Ok(v) ==> parse_container(data@) == Ok::<_, XP3ErrorKind>(v@),
            r matches Err(e) ==> parse_container(data@) == Err::<VirtualXP3View, _>(e.spec_kind()),
    {
        let n = data.len();
        match Self::check_archive(data) {
            Ok(_) => {},
            Err(e) => {
                return Err(e);
            },
        }
        if n < 11 {
            return Err(XP3Error::new(XP3ErrorKind::Io));
        }
        // The version-selector byte at offset 10 is passed over.
        let (consumed, header) = match XP3Header::from_bytes(data, 11) {
            Ok(v) => v,
            Err(e) => {
                return Err(e);
            },
        };
        let mut pointer_pos = 11 + consumed as usize;
        if let XP3HeaderVersion::Current { index_size_offset, .. } = header.version() {
            if index_size_offset > (usize::MAX - pointer_pos) as u64 {
                return Err(XP3Error::new(XP3ErrorKind::Io));
            }
            pointer_pos = pointer_pos + index_size_offset as usize;
        }
        if pointer_pos >= n || n - pointer_pos < 8 {
            return Err(XP3Error::new(XP3ErrorKind::Io));
        }
        let index_offset = read_u64(data, pointer_pos);
        if index_offset >= n as u64 {
            return Err(XP3Error::new(XP3ErrorKind::Io));
        }
        let (_, index_set) = match XP3IndexSet::from_bytes(data, index_offset as usize) {
            Ok(v) => v,
            Err(e) => {
                return Err(e);
            },
        };
        Ok(VirtualXP3::new(header, index_set))
    }

    /// Opens an archive: decodes its container and keeps the bytes for
    /// on-demand unpacking.
    pub fn open_archive(data: Vec<u8>) -> (r: Result<XP3Archive, XP3Error>)
        ensures
            r matches Ok(a) ==> parse_container(data@) == Ok::<_, XP3ErrorKind>(a.spec_container()@)
                && a.spec_data() == data@,
            r matches Err(e) ==> parse_container(data@) == Err::<VirtualXP3View, _>(e.spec_kind()),
    {
        let container = match Self::read_container(data.as_slice()) {
            Ok(v) => v,
            Err(e) => {
                return Err(e);
            },
        };
        Ok(XP3Archive::new(container, data))
    }

    /// Decodes one stored segment out of `from` and appends its unpacked
    /// bytes to `out`, per [`segment_output`].
    pub fn read_segment(segment: &XP3FileIndexSegment, from: &[u8], out: &mut Vec<u8>) -> (r:
        Result<(), XP3Error>)
        ensures
            r is Ok <==> segment_output(from@, *segment) is Some,
            r is Ok ==> final(out)@ == old(out)@ + segment_output(from@, *segment)->0,
            r matches Err(e) ==> e.spec_kind() == XP3ErrorKind::Io && final(out)@ == old(out)@,
    {
        let n = from.len();
        if segment.data_offset > n as u64 || segment.saved_size > (n as u64 - segment.data_offset) {
            return Err(XP3Error::new(XP3ErrorKind::Io));
        }
        let start = segment.data_offset as usize;
        let stored = slice_subrange(from, start, start + segment.saved_size as usize);
        match segment.flag {
            IndexSegmentFlag::UnCompressed => {
                out.extend_from_slice(stored);
                Ok(())
            },
            IndexSegmentFlag::Compressed => {
                let unpacked = match inflate(stored, segment.original_size) {
                    Ok(v) => v,
                    Err(e) => {
                        return Err(e);
                    },
                };
                out.extend_from_slice(unpacked.as_slice());
                Ok(())
            },
        }
    }
}

/// A stream whose first ten bytes differ from the magic never opens: the
/// container decoder answers `InvalidFile` and nothing else.
pub proof fn lemma_magic_rejection(s: Seq<u8>)
    requires
        s.len() >= 10,
        s.subrange(0, 10) != spec_xp3_magic(),
    ensures
        parse_container(s) == Err::<VirtualXP3View, _>(XP3ErrorKind::InvalidFile),
{
}

/// The bytes of a whole archive: magic, version-selector, header, the
/// index-offset pointer, the data region, then the index set at the end.
pub open spec fn archive_bytes(
    h: XP3Header,
    data_region: Seq<u8>,
    v: XP3IndexSetView,
) -> Seq<u8> {
    let pointer = 19 + header_bytes(h).len() + data_region.len();
    spec_xp3_magic() + seq![1u8] + header_bytes(h) + le64_bytes(pointer as u64) + data_region
        + crate::index_set::index_set_bytes(v)
}

/// Decoding an archive laid out as the writer lays it out gives the header
/// and the index set back, whatever bytes fill the data region.
///
/// Besides what the index set's own round trip asks, the archive layout must
/// resolve: a versioned header must carry a zero `index_size_offset` (the
/// pointer sits right after the header), a legacy archive's pointer value
/// must not spell the version marker (a data region of exactly four bytes
/// does), and the pointer must fit its eight bytes.
pub proof fn lemma_container_round_trip(h: XP3Header, data_region: Seq<u8>, v: XP3IndexSetView)
    requires
        h.spec_version() matches XP3HeaderVersion::Current { index_size_offset, .. }
            ==> index_size_offset == 0,
        h.spec_version() is Old ==> 19 + data_region.len() != XP3_CURRENT_VER_IDENTIFIER,
        19 + header_bytes(h).len() + data_region.len() <= u64::MAX,
        forall|i: int|
            0 <= i < v.extra.len() ==> (#[trigger] v.extra[i]).identifier
                != crate::XP3_INDEX_FILE_IDENTIFIER && crate::index_set::extra_encodable(
                v.extra[i],
            ),
        forall|i: int|
            0 <= i < v.files.len() ==> crate::index_set::file_encodable(#[trigger] v.files[i])
                && crate::index::file::name_survives_utf16(v.files[i].info.name),
        crate::index_set::names_unique(v.files),
        crate::index_set::index_body_bytes(v.extra, v.files).len() <= u64::MAX,
        v.compression is Compressed ==> crate::zlib::deflate_of(
            crate::index_set::index_body_bytes(v.extra, v.files),
        ).len() <= u64::MAX && inflate_prefix(
            crate::zlib::deflate_of(crate::index_set::index_body_bytes(v.extra, v.files)),
            crate::index_set::index_body_bytes(v.extra, v.files).len() as int,
        ) == Some(crate::index_set::index_body_bytes(v.extra, v.files)),
    ensures
        parse_container(archive_bytes(h, data_region, v)) == Ok::<_, XP3ErrorKind>(
            VirtualXP3View { header: h, index_set: v },
        ),
{
    crate::le::lemma_le32_round_trip();
    crate::le::lemma_le64_round_trip();
    let s = archive_bytes(h, data_region, v);
    let hb = header_bytes(h);
    let isb = crate::index_set::index_set_bytes(v);
    let pointer = 19 + hb.len() + data_region.len();
    assert(s.len() == pointer + isb.len());
    assert(s.subrange(0, 10) =~= spec_xp3_magic());
    // The header decodes at 11.
    match h.spec_version() {
        XP3HeaderVersion::Old => {
            assert(s.subrange(11, 19) =~= le64_bytes(pointer as u64));
            crate::le::lemma_le64_at_of_bytes(s, 11, pointer as u64);
            assert(le64_at(s, 11) != XP3_CURRENT_VER_IDENTIFIER);
            assert(parse_header(s, 11) == Ok::<_, XP3ErrorKind>((0int, h)));
        },
        XP3HeaderVersion::Current { minor_version, index_size_offset } => {
            assert(s.subrange(11, 19) =~= le64_bytes(XP3_CURRENT_VER_IDENTIFIER));
            crate::le::lemma_le64_at_of_bytes(s, 11, XP3_CURRENT_VER_IDENTIFIER);
            assert(s.subrange(19, 23) =~= le32_bytes(minor_version));
            crate::le::lemma_le32_at_of_bytes(s, 19, minor_version);
            assert(s[23] == crate::XP3_VERSION_IDENTIFIER);
            assert(s.subrange(24, 32) =~= le64_bytes(index_size_offset));
            crate::le::lemma_le64_at_of_bytes(s, 24, index_size_offset);
        },
    }
    // The pointer decodes right after the header.
    let pointer_pos = 11 + hb.len() as int;
    assert(s.subrange(pointer_pos, pointer_pos + 8) =~= le64_bytes(pointer as u64));
    crate::le::lemma_le64_at_of_bytes(s, pointer_pos, pointer as u64);
    // The index set decodes at the pointer's target.
    assert(s.subrange(pointer as int, pointer + isb.len() as int) =~= isb);
    crate::index_set::lemma_index_set_round_trip(s, pointer as int, v);
}

/// What a segment unpacks to depends only on its own stored bytes: it is
/// unchanged when the archive grows past it, as it does when the index set
/// is appended after the data region.
pub proof fn lemma_segment_output_stable(d1: Seq<u8>, d2: Seq<u8>, seg: XP3FileIndexSegment)
    requires
        seg.data_offset + seg.saved_size <= d1.len(),
        d1.len() <= d2.len(),
        forall|i: int| seg.data_offset <= i < seg.data_offset + seg.saved_size ==> d1[i] == d2[i],
    ensures
        segment_output(d2, seg) == segment_output(d1, seg),
{
    assert(d1.subrange(seg.data_offset as int, seg.data_offset + seg.saved_size) =~= d2.subrange(
        seg.data_offset as int,
        seg.data_offset + seg.saved_size,
    ));
}

} // verus!
