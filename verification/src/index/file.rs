//! The per-file metadata of an archive: the Info, Segment, Adler and Time
//! fragments, and the File record that bundles them.

use crate::le::{
    le16_at, le16_bytes, le32_at, le32_bytes, le64_at, le64_bytes, lemma_le16_at_of_bytes,
    lemma_le32_at_of_bytes, lemma_le64_at_of_bytes, read_u16, read_u32, read_u64, write_u16,
    write_u32, write_u64,
};
use crate::index::{lemma_parse_tlv_at, parse_tlv, tlv_bytes};
use crate::text::{utf16_bytes_of, utf16_chars_of, utf16_decode, utf16_encode};
use crate::{
    XP3Error, XP3ErrorKind, XP3_INDEX_ADLR_IDENTIFIER, XP3_INDEX_INFO_IDENTIFIER,
    XP3_INDEX_SEGM_IDENTIFIER, XP3_INDEX_TIME_IDENTIFIER,
};
use vstd::prelude::*;
use vstd::slice::{slice_subrange, slice_to_vec};

verus! {

/// Whether a file is marked protected in its Info fragment.
#[derive(Debug, Copy, Clone, PartialEq, Eq, Structural)]
pub enum IndexInfoFlag {
    NotProtected,
    Protected,
}

/// The `u32` a protection flag is stored as.
pub open spec fn spec_info_flag_value(f: IndexInfoFlag) -> u32 {
    match f {
        IndexInfoFlag::NotProtected => 0,
        IndexInfoFlag::Protected => 0x80000000,
    }
}

impl IndexInfoFlag {
    /// The `u32` this flag is stored as.
    pub fn value(self) -> (r: u32)
        ensures
            r == spec_info_flag_value(self),
    {
        match self {
            IndexInfoFlag::NotProtected => 0,
            IndexInfoFlag::Protected => 0x80000000,
        }
    }
}

/// Whether a segment's bytes are stored deflated.
#[derive(Debug, Copy, Clone, PartialEq, Eq, Structural)]
pub enum IndexSegmentFlag {
    UnCompressed,
    Compressed,
}

/// The `u32` a segment flag is stored as.
pub open spec fn spec_segment_flag_value(f: IndexSegmentFlag) -> u32 {
    match f {
        IndexSegmentFlag::UnCompressed => 0,
        IndexSegmentFlag::Compressed => 1,
    }
}

impl IndexSegmentFlag {
    /// The `u32` this flag is stored as.
    pub fn value(self) -> (r: u32)
        ensures
            r == spec_segment_flag_value(self),
    {
        match self {
            IndexSegmentFlag::UnCompressed => 0,
            IndexSegmentFlag::Compressed => 1,
        }
    }
}

/// The abstract value of an Info fragment.
pub ghost struct XP3FileIndexInfoView {
    /// Protection flag.
    pub flag: IndexInfoFlag,
    /// Size of the file once unpacked.
    pub file_size: u64,
    /// Size the file occupies in the archive.
    pub saved_file_size: u64,
    /// The entry's name.
    pub name: Seq<char>,
}

/// How many UTF-16 code units of an encoded name fit the Info fragment's
/// two-byte length prefix while keeping the stored bytes within the 65535
/// byte limit; longer names lose their tail.
pub open spec fn spec_info_name_units(name: Seq<char>) -> int {
    let units = utf16_bytes_of(name).len() as int / 2;
    if units > 32767 {
        32767
    } else {
        units
    }
}

/// The wire form of an Info fragment: flag, the two sizes, then the name's
/// length in UTF-16 code units and its UTF-16LE bytes, cut to the limit.
pub open spec fn info_bytes(i: XP3FileIndexInfoView) -> Seq<u8> {
    let units = spec_info_name_units(i.name);
    le32_bytes(spec_info_flag_value(i.flag)) + le64_bytes(i.file_size) + le64_bytes(
        i.saved_file_size,
    ) + le16_bytes(units as u16) + utf16_bytes_of(i.name).take(2 * units)
}

/// What decoding an Info fragment from the payload `s` yields. The flag must
/// be one of its two constants; the name bytes must all be present.
pub open spec fn parse_info(s: Seq<u8>) -> Result<XP3FileIndexInfoView, XP3ErrorKind> {
    if s.len() < 22 {
        Err(XP3ErrorKind::Io)
    } else {
        let raw_flag = le32_at(s, 0);
        if raw_flag != 0 && raw_flag != 0x80000000 {
            Err(XP3ErrorKind::InvalidFileIndex)
        } else {
            let name_bytes = 2 * (le16_at(s, 20) as int);
            if 22 + name_bytes > s.len() {
                Err(XP3ErrorKind::Io)
            } else {
                Ok(
                    XP3FileIndexInfoView {
                        flag: if raw_flag == 0 {
                            IndexInfoFlag::NotProtected
                        } else {
                            IndexInfoFlag::Protected
                        },
                        file_size: le64_at(s, 4),
                        saved_file_size: le64_at(s, 12),
                        name: utf16_chars_of(s.subrange(22, 22 + name_bytes)),
                    },
                )
            }
        }
    }
}

/// The Info fragment: name, protection flag and sizes of one file.
#[derive(Debug, Clone)]
pub struct XP3FileIndexInfo {
    /// Protection flag.
    pub flag: IndexInfoFlag,
    /// Size of the file once unpacked.
    pub file_size: u64,
    /// Size the file occupies in the archive.
    pub saved_file_size: u64,
    /// The entry's name.
    pub name: String,
}

impl View for XP3FileIndexInfo {
    type V = XP3FileIndexInfoView;

    open spec fn view(&self) -> XP3FileIndexInfoView {
        XP3FileIndexInfoView {
            flag: self.flag,
            file_size: self.file_size,
            saved_file_size: self.saved_file_size,
            name: self.name@,
        }
    }
}

impl XP3FileIndexInfo {
    /// Makes an Info fragment from its parts.
    pub fn new(flag: IndexInfoFlag, file_size: u64, saved_file_size: u64, name: String) -> (r:
        Self)
        ensures
            r@ == (XP3FileIndexInfoView { flag, file_size, saved_file_size, name: name@ }),
    {
        XP3FileIndexInfo { flag, file_size, saved_file_size, name }
    }

    /// The protection flag.
    pub fn flag(&self) -> (r: IndexInfoFlag)
        ensures
            r == self@.flag,
    {
        self.flag
    }

    /// Replaces the protection flag.
    pub fn set_flag(&mut self, flag: IndexInfoFlag)
        ensures
            final(self)@ == (XP3FileIndexInfoView { flag, ..old(self)@ }),
    {
        self.flag = flag;
    }

    /// The size of the file once unpacked.
    pub fn file_size(&self) -> (r: u64)
        ensures
            r == self@.file_size,
    {
        self.file_size
    }

    /// Replaces the unpacked size.
    pub fn set_file_size(&mut self, file_size: u64)
        ensures
            final(self)@ == (XP3FileIndexInfoView { file_size, ..old(self)@ }),
    {
        self.file_size = file_size;
    }

    /// The size the file occupies in the archive.
    pub fn saved_file_size(&self) -> (r: u64)
        ensures
            r == self@.saved_file_size,
    {
        self.saved_file_size
    }

    /// Replaces the stored size.
    pub fn set_saved_file_size(&mut self, saved_file_size: u64)
        ensures
            final(self)@ == (XP3FileIndexInfoView { saved_file_size, ..old(self)@ }),
    {
        self.saved_file_size = saved_file_size;
    }

    /// The entry's name.
    pub fn name(&self) -> (r: &String)
        ensures
            r@ == self@.name,
    {
        &self.name
    }

    /// Replaces the entry's name.
    pub fn set_name(&mut self, name: String)
        ensures
            final(self)@ == (XP3FileIndexInfoView { name: name@, ..old(self)@ }),
    {
        self.name = name;
    }

    /// Decodes an Info fragment from the payload `data`, per [`parse_info`].
    /// Returns the bytes consumed and the fragment.
    pub fn from_bytes(data: &[u8]) -> (r: Result<(u64, Self), XP3Error>)
        ensures
            r matches Ok(v) ==> parse_info(data@) == Ok::<_, XP3ErrorKind>(v.1@) && v.0 == 22 + 2
                * (le16_at(data@, 20) as int),
            r matches Err(e) ==> parse_info(data@) == Err::<XP3FileIndexInfoView, _>(
                e.spec_kind(),
            ),
    {
        let n = data.len();
        if n < 22 {
            return Err(XP3Error::new(XP3ErrorKind::Io));
        }
        let raw_flag = read_u32(data, 0);
        let flag = if raw_flag == 0 {
            IndexInfoFlag::NotProtected
        } else if raw_flag == 0x80000000 {
            IndexInfoFlag::Protected
        } else {
            return Err(XP3Error::new(XP3ErrorKind::InvalidFileIndex));
        };
        let file_size = read_u64(data, 4);
        let saved_file_size = read_u64(data, 12);
        let name_bytes = 2 * (read_u16(data, 20) as usize);
        if name_bytes > n - 22 {
            return Err(XP3Error::new(XP3ErrorKind::Io));
        }
        let name = utf16_decode(slice_subrange(data, 22, 22 + name_bytes));
        Ok(
            (
                22 + name_bytes as u64,
                XP3FileIndexInfo { flag, file_size, saved_file_size, name },
            ),
        )
    }

    /// Appends the fragment's wire form to `out`, truncating over-long
    /// names to the stored limit. Returns the bytes written.
    pub fn write_bytes(&self, out: &mut Vec<u8>) -> (r: u64)
        ensures
            final(out)@ == old(out)@ + info_bytes(self@),
            r == info_bytes(self@).len(),
    {
        write_u32(out, self.flag.value());
        write_u64(out, self.file_size);
        write_u64(out, self.saved_file_size);
        let encoded = utf16_encode(self.name.as_str());
        let full_units = encoded.len() / 2;
        let units = if full_units > 32767 {
            32767
        } else {
            full_units
        };
        write_u16(out, units as u16);
        let name_field = slice_subrange(encoded.as_slice(), 0, 2 * units);
        out.extend_from_slice(name_field);
        proof {
            crate::le::lemma_le16_round_trip();
            crate::le::lemma_le32_round_trip();
            crate::le::lemma_le64_round_trip();
            assert(encoded@.subrange(0, 2 * units as int) =~= utf16_bytes_of(self@.name).take(
                2 * spec_info_name_units(self@.name),
            ));
            assert(out@ =~= old(out)@ + info_bytes(self@));
        }
        22 + 2 * units as u64
    }
}

/// Decoding the payload an Info fragment was written to gives the fragment
/// back, provided the name survives its UTF-16 form: it must decode back to
/// itself and fit the stored length limit.
pub proof fn lemma_info_round_trip(i: XP3FileIndexInfoView)
    requires
        utf16_chars_of(utf16_bytes_of(i.name)) == i.name,
        utf16_bytes_of(i.name).len() % 2 == 0,
        utf16_bytes_of(i.name).len() <= 65534,
    ensures
        parse_info(info_bytes(i)) == Ok::<_, XP3ErrorKind>(i),
{
    crate::le::lemma_le16_round_trip();
    crate::le::lemma_le32_round_trip();
    crate::le::lemma_le64_round_trip();
    let s = info_bytes(i);
    let units = spec_info_name_units(i.name);
    assert(2 * units == utf16_bytes_of(i.name).len());
    assert(utf16_bytes_of(i.name).take(2 * units) =~= utf16_bytes_of(i.name));
    assert(s.subrange(0, 4) =~= le32_bytes(spec_info_flag_value(i.flag)));
    lemma_le32_at_of_bytes(s, 0, spec_info_flag_value(i.flag));
    assert(s.subrange(4, 12) =~= le64_bytes(i.file_size));
    lemma_le64_at_of_bytes(s, 4, i.file_size);
    assert(s.subrange(12, 20) =~= le64_bytes(i.saved_file_size));
    lemma_le64_at_of_bytes(s, 12, i.saved_file_size);
    assert(s.subrange(20, 22) =~= le16_bytes(units as u16));
    lemma_le16_at_of_bytes(s, 20, units as u16);
    assert(s.subrange(22, 22 + 2 * units) =~= utf16_bytes_of(i.name));
    assert(spec_info_flag_value(i.flag) == 0 <==> i.flag is NotProtected);
}

/// One stored run of a file's data: its compression flag, where it sits
/// relative to the archive origin, and its two sizes.
#[derive(Debug, Copy, Clone, PartialEq, Eq, Structural)]
pub struct XP3FileIndexSegment {
    /// Whether the stored bytes are deflated.
    pub flag: IndexSegmentFlag,
    /// Offset of the stored bytes, relative to the archive origin.
    pub data_offset: u64,
    /// Size of the run once unpacked.
    pub original_size: u64,
    /// Size of the run as stored.
    pub saved_size: u64,
}

/// The fixed 28-byte wire form of a segment.
pub open spec fn segment_bytes(seg: XP3FileIndexSegment) -> Seq<u8> {
    le32_bytes(spec_segment_flag_value(seg.flag)) + le64_bytes(seg.data_offset) + le64_bytes(
        seg.original_size,
    ) + le64_bytes(seg.saved_size)
}

/// What decoding a segment at `pos` in `s` yields. The flag must be 0 or 1.
pub open spec fn parse_segment(s: Seq<u8>, pos: int) -> Result<
    XP3FileIndexSegment,
    XP3ErrorKind,
> {
    if pos + 28 > s.len() {
        Err(XP3ErrorKind::Io)
    } else {
        let raw_flag = le32_at(s, pos);
        if raw_flag != 0 && raw_flag != 1 {
            Err(XP3ErrorKind::InvalidFileIndex)
        } else {
            Ok(
                XP3FileIndexSegment {
                    flag: if raw_flag == 0 {
                        IndexSegmentFlag::UnCompressed
                    } else {
                        IndexSegmentFlag::Compressed
                    },
                    data_offset: le64_at(s, pos + 4),
                    original_size: le64_at(s, pos + 12),
                    saved_size: le64_at(s, pos + 20),
                },
            )
        }
    }
}

impl XP3FileIndexSegment {
    /// Makes a segment from its parts.
    pub fn new(flag: IndexSegmentFlag, data_offset: u64, original_size: u64, saved_size: u64) -> (
        r: Self)
        ensures
            r == (XP3FileIndexSegment { flag, data_offset, original_size, saved_size }),
    {
        XP3FileIndexSegment { flag, data_offset, original_size, saved_size }
    }

    /// The compression flag.
    pub fn flag(&self) -> (r: IndexSegmentFlag)
        ensures
            r == self.flag,
    {
        self.flag
    }

    /// Replaces the compression flag.
    pub fn set_flag(&mut self, flag: IndexSegmentFlag)
        ensures
            *final(self) == (XP3FileIndexSegment { flag, ..*old(self) }),
    {
        self.flag = flag;
    }

    /// The offset of the stored bytes, relative to the archive origin.
    pub fn data_offset(&self) -> (r: u64)
        ensures
            r == self.data_offset,
    {
        self.data_offset
    }

    /// Replaces the data offset.
    pub fn set_data_offset(&mut self, data_offset: u64)
        ensures
            *final(self) == (XP3FileIndexSegment { data_offset, ..*old(self) }),
    {
        self.data_offset = data_offset;
    }

    /// The size of the run once unpacked.
    pub fn original_size(&self) -> (r: u64)
        ensures
            r == self.original_size,
    {
        self.original_size
    }

    /// Replaces the unpacked size.
    pub fn set_original_size(&mut self, original_size: u64)
        ensures
            *final(self) == (XP3FileIndexSegment { original_size, ..*old(self) }),
    {
        self.original_size = original_size;
    }

    /// The size of the run as stored.
    pub fn saved_size(&self) -> (r: u64)
        ensures
            r == self.saved_size,
    {
        self.saved_size
    }

    /// Replaces the stored size.
    pub fn set_saved_size(&mut self, saved_size: u64)
        ensures
            *final(self) == (XP3FileIndexSegment { saved_size, ..*old(self) }),
    {
        self.saved_size = saved_size;
    }

    /// Decodes a segment from `pos` in `data`, per [`parse_segment`].
    /// Returns the bytes consumed (always 28) and the segment.
    pub fn from_bytes(data: &[u8], pos: usize) -> (r: Result<(u64, Self), XP3Error>)
        ensures
            r matches Ok(v) ==> parse_segment(data@, pos as int) == Ok::<_, XP3ErrorKind>(v.1)
                && v.0 == 28,
            r matches Err(e) ==> parse_segment(data@, pos as int) == Err::<XP3FileIndexSegment, _>(
                e.spec_kind(),
            ),
    {
        let n = data.len();
        if pos >= n || n - pos < 28 {
            return Err(XP3Error::new(XP3ErrorKind::Io));
        }
        let raw_flag = read_u32(data, pos);
        let flag = if raw_flag == 0 {
            IndexSegmentFlag::UnCompressed
        } else if raw_flag == 1 {
            IndexSegmentFlag::Compressed
        } else {
            return Err(XP3Error::new(XP3ErrorKind::InvalidFileIndex));
        };
        let data_offset = read_u64(data, pos + 4);
        let original_size = read_u64(data, pos + 12);
        let saved_size = read_u64(data, pos + 20);
        Ok((28, XP3FileIndexSegment { flag, data_offset, original_size, saved_size }))
    }

    /// Appends the segment's 28-byte wire form to `out`. Returns 28.
    pub fn write_bytes(&self, out: &mut Vec<u8>) -> (r: u64)
        ensures
            final(out)@ == old(out)@ + segment_bytes(*self),
            r == 28,
    {
        write_u32(out, self.flag.value());
        write_u64(out, self.data_offset);
        write_u64(out, self.original_size);
        write_u64(out, self.saved_size);
        proof {
            assert(out@ =~= old(out)@ + segment_bytes(*self));
        }
        28
    }
}

/// Decoding 28 bytes a segment was written to gives the segment back.
pub proof fn lemma_segment_round_trip(s: Seq<u8>, pos: int, seg: XP3FileIndexSegment)
    requires
        0 <= pos,
        pos + 28 <= s.len(),
        s.subrange(pos, pos + 28) == segment_bytes(seg),
    ensures
        parse_segment(s, pos) == Ok::<_, XP3ErrorKind>(seg),
{
    crate::le::lemma_le32_round_trip();
    crate::le::lemma_le64_round_trip();
    let whole = s.subrange(pos, pos + 28);
    assert(s.subrange(pos, pos + 4) =~= whole.subrange(0, 4));
    assert(whole.subrange(0, 4) =~= le32_bytes(spec_segment_flag_value(seg.flag)));
    lemma_le32_at_of_bytes(s, pos, spec_segment_flag_value(seg.flag));
    assert(s.subrange(pos + 4, pos + 12) =~= whole.subrange(4, 12));
    assert(whole.subrange(4, 12) =~= le64_bytes(seg.data_offset));
    lemma_le64_at_of_bytes(s, pos + 4, seg.data_offset);
    assert(s.subrange(pos + 12, pos + 20) =~= whole.subrange(12, 20));
    assert(whole.subrange(12, 20) =~= le64_bytes(seg.original_size));
    lemma_le64_at_of_bytes(s, pos + 12, seg.original_size);
    assert(s.subrange(pos + 20, pos + 28) =~= whole.subrange(20, 28));
    assert(whole.subrange(20, 28) =~= le64_bytes(seg.saved_size));
    lemma_le64_at_of_bytes(s, pos + 20, seg.saved_size);
}

/// The wire form of a segment list: the 28-byte forms, one after another.
pub open spec fn segment_list_bytes(segs: Seq<XP3FileIndexSegment>) -> Seq<u8>
    decreases segs.len(),
{
    if segs.len() == 0 {
        Seq::empty()
    } else {
        segment_bytes(segs[0]) + segment_list_bytes(segs.drop_first())
    }
}

/// A segment list occupies 28 bytes per segment.
pub proof fn lemma_segment_list_bytes_len(segs: Seq<XP3FileIndexSegment>)
    ensures
        segment_list_bytes(segs).len() == 28 * segs.len(),
    decreases segs.len(),
{
    crate::le::lemma_le32_round_trip();
    crate::le::lemma_le64_round_trip();
    if segs.len() > 0 {
        lemma_segment_list_bytes_len(segs.drop_first());
    }
}

/// Appending a segment appends its 28 bytes.
pub proof fn lemma_segment_list_bytes_push(segs: Seq<XP3FileIndexSegment>, seg: XP3FileIndexSegment)
    ensures
        segment_list_bytes(segs.push(seg)) == segment_list_bytes(segs) + segment_bytes(seg),
    decreases segs.len(),
{
    if segs.len() == 0 {
        assert(segs.push(seg).drop_first() =~= segs);
        assert(segment_list_bytes(segs.push(seg)) =~= segment_bytes(seg));
        assert(segment_list_bytes(segs) + segment_bytes(seg) =~= segment_bytes(seg));
    } else {
        assert(segs.push(seg).drop_first() =~= segs.drop_first().push(seg));
        assert(segs.push(seg)[0] == segs[0]);
        lemma_segment_list_bytes_push(segs.drop_first(), seg);
        assert(segment_list_bytes(segs.push(seg)) =~= segment_list_bytes(segs) + segment_bytes(
            seg,
        ));
    }
}

/// What decoding a whole Segment-list payload yields: one segment per 28
/// bytes, or `InvalidFileIndex` when the length is not a multiple of 28 or a
/// flag is out of range.
pub open spec fn parse_segment_list(s: Seq<u8>) -> Result<
    Seq<XP3FileIndexSegment>,
    XP3ErrorKind,
>
    decreases s.len(),
{
    if s.len() == 0 {
        Ok(Seq::empty())
    } else if s.len() < 28 {
        Err(XP3ErrorKind::InvalidFileIndex)
    } else {
        match parse_segment(s, 0) {
            Err(e) => Err(e),
            Ok(seg) => match parse_segment_list(s.skip(28)) {
                Err(e) => Err(e),
                Ok(rest) => Ok(seq![seg] + rest),
            },
        }
    }
}

/// Decoding a segment does not care what sits before the 28 bytes it reads.
pub proof fn lemma_parse_segment_shift(s: Seq<u8>, pos: int)
    requires
        0 <= pos <= s.len(),
    ensures
        parse_segment(s.skip(pos), 0) == parse_segment(s, pos),
{
    let t = s.skip(pos);
    if pos + 28 <= s.len() {
        assert(t.subrange(0, 4) =~= s.subrange(pos, pos + 4));
        assert(t.subrange(4int, 12int) =~= s.subrange(pos + 4, pos + 12));
        assert(t.subrange(12int, 20int) =~= s.subrange(pos + 12, pos + 20));
        assert(t.subrange(20int, 28int) =~= s.subrange(pos + 20, pos + 28));
    }
}

/// The Time fragment: one timestamp.
#[derive(Debug, Copy, Clone, PartialEq, Eq, Structural)]
pub struct XP3FileIndexTime {
    /// The file's timestamp.
    pub timestamp: u64,
}

/// The fixed 8-byte wire form of a Time fragment.
pub open spec fn time_bytes(t: XP3FileIndexTime) -> Seq<u8> {
    le64_bytes(t.timestamp)
}

/// What decoding a Time fragment from the payload `s` yields.
pub open spec fn parse_time(s: Seq<u8>) -> Result<XP3FileIndexTime, XP3ErrorKind> {
    if s.len() < 8 {
        Err(XP3ErrorKind::Io)
    } else {
        Ok(XP3FileIndexTime { timestamp: le64_at(s, 0) })
    }
}

impl XP3FileIndexTime {
    /// Makes a Time fragment.
    pub fn new(timestamp: u64) -> (r: Self)
        ensures
            r.timestamp == timestamp,
    {
        XP3FileIndexTime { timestamp }
    }

    /// The timestamp.
    pub fn timestamp(&self) -> (r: u64)
        ensures
            r == self.timestamp,
    {
        self.timestamp
    }

    /// Replaces the timestamp.
    pub fn set_timestamp(&mut self, timestamp: u64)
        ensures
            final(self).timestamp == timestamp,
    {
        self.timestamp = timestamp;
    }

    /// Decodes a Time fragment from the payload `data`, per [`parse_time`].
    /// Returns the bytes consumed (always 8) and the fragment.
    pub fn from_bytes(data: &[u8]) -> (r: Result<(u64, Self), XP3Error>)
        ensures
            r matches Ok(v) ==> parse_time(data@) == Ok::<_, XP3ErrorKind>(v.1) && v.0 == 8,
            r matches Err(e) ==> parse_time(data@) == Err::<XP3FileIndexTime, _>(e.spec_kind()),
    {
        if data.len() < 8 {
            return Err(XP3Error::new(XP3ErrorKind::Io));
        }
        Ok((8, XP3FileIndexTime { timestamp: read_u64(data, 0) }))
    }

    /// Appends the fragment's 8-byte wire form to `out`. Returns 8.
    pub fn write_bytes(&self, out: &mut Vec<u8>) -> (r: u64)
        ensures
            final(out)@ == old(out)@ + time_bytes(*self),
            r == 8,
    {
        write_u64(out, self.timestamp);
        8
    }
}

/// The Adler fragment: the checksum of a file's unpacked bytes.
#[derive(Debug, Copy, Clone, PartialEq, Eq, Structural)]
pub struct XP3FileIndexAdler {
    /// The stored Adler-32 checksum.
    pub checksum: u32,
}

/// The fixed 4-byte wire form of an Adler fragment.
pub open spec fn adler_bytes(a: XP3FileIndexAdler) -> Seq<u8> {
    le32_bytes(a.checksum)
}

/// What decoding an Adler fragment from the payload `s` yields.
pub open spec fn parse_adler(s: Seq<u8>) -> Result<XP3FileIndexAdler, XP3ErrorKind> {
    if s.len() < 4 {
        Err(XP3ErrorKind::Io)
    } else {
        Ok(XP3FileIndexAdler { checksum: le32_at(s, 0) })
    }
}

impl XP3FileIndexAdler {
    /// Makes an Adler fragment.
    pub fn new(checksum: u32) -> (r: Self)
        ensures
            r.checksum == checksum,
    {
        XP3FileIndexAdler { checksum }
    }

    /// The stored checksum.
    pub fn checksum(&self) -> (r: u32)
        ensures
            r == self.checksum,
    {
        self.checksum
    }

    /// Replaces the stored checksum.
    pub fn set_checksum(&mut self, checksum: u32)
        ensures
            final(self).checksum == checksum,
    {
        self.checksum = checksum;
    }

    /// Decodes an Adler fragment from the payload `data`, per
    /// [`parse_adler`]. Returns the bytes consumed (always 4) and the
    /// fragment.
    pub fn from_bytes(data: &[u8]) -> (r: Result<(u64, Self), XP3Error>)
        ensures
            r matches Ok(v) ==> parse_adler(data@) == Ok::<_, XP3ErrorKind>(v.1) && v.0 == 4,
            r matches Err(e) ==> parse_adler(data@) == Err::<XP3FileIndexAdler, _>(e.spec_kind()),
    {
        if data.len() < 4 {
            return Err(XP3Error::new(XP3ErrorKind::Io));
        }
        Ok((4, XP3FileIndexAdler { checksum: read_u32(data, 0) }))
    }

    /// Appends the fragment's 4-byte wire form to `out`. Returns 4.
    pub fn write_bytes(&self, out: &mut Vec<u8>) -> (r: u64)
        ensures
            final(out)@ == old(out)@ + adler_bytes(*self),
            r == 4,
    {
        write_u32(out, self.checksum);
        4
    }
}

/// A name survives its UTF-16 form when decoding its encoding gives it back
/// and the encoding fits the Info fragment's stored length limit.
pub open spec fn name_survives_utf16(name: Seq<char>) -> bool {
    &&& utf16_chars_of(utf16_bytes_of(name)) == name
    &&& utf16_bytes_of(name).len() % 2 == 0
    &&& utf16_bytes_of(name).len() <= 65534
}

/// The abstract value of a File record.
pub ghost struct XP3FileIndexView {
    /// The Info fragment.
    pub info: XP3FileIndexInfoView,
    /// The segments, in index order.
    pub segments: Seq<XP3FileIndexSegment>,
    /// The Adler fragment.
    pub adler: XP3FileIndexAdler,
    /// The Time fragment, if present.
    pub time: Option<XP3FileIndexTime>,
}

/// The fragments gathered while walking a File record's payload.
pub ghost struct FileFragments {
    /// The Info fragment, once seen.
    pub info: Option<XP3FileIndexInfoView>,
    /// The segment list, once seen.
    pub segments: Option<Seq<XP3FileIndexSegment>>,
    /// The Adler fragment, once seen.
    pub adler: Option<XP3FileIndexAdler>,
    /// The Time fragment, once seen.
    pub time: Option<XP3FileIndexTime>,
}

/// No fragment seen yet.
pub open spec fn empty_fragments() -> FileFragments {
    FileFragments { info: None, segments: None, adler: None, time: None }
}

/// The fragments as gathered into the decoder's four slots.
pub open spec fn fragments_of(
    info: Option<XP3FileIndexInfo>,
    segments: Option<Vec<XP3FileIndexSegment>>,
    adler: Option<XP3FileIndexAdler>,
    time: Option<XP3FileIndexTime>,
) -> FileFragments {
    FileFragments {
        info: match info {
            Some(i) => Some(i@),
            None => None,
        },
        segments: match segments {
            Some(v) => Some(v@),
            None => None,
        },
        adler,
        time,
    }
}

/// How one sub-record changes the gathered fragments: Info, Segment-list and
/// Adler may each appear once, Time may be overwritten, anything else is
/// skipped for forward compatibility.
pub open spec fn apply_fragment(acc: FileFragments, identifier: u32, payload: Seq<u8>) -> Result<
    FileFragments,
    XP3ErrorKind,
> {
    if identifier == XP3_INDEX_INFO_IDENTIFIER {
        if acc.info is Some {
            Err(XP3ErrorKind::InvalidFileIndex)
        } else {
            match parse_info(payload) {
                Ok(i) => Ok(FileFragments { info: Some(i), ..acc }),
                Err(e) => Err(e),
            }
        }
    } else if identifier == XP3_INDEX_SEGM_IDENTIFIER {
        if acc.segments is Some {
            Err(XP3ErrorKind::InvalidFileIndex)
        } else {
            match parse_segment_list(payload) {
                Ok(v) => Ok(FileFragments { segments: Some(v), ..acc }),
                Err(e) => Err(e),
            }
        }
    } else if identifier == XP3_INDEX_ADLR_IDENTIFIER {
        if acc.adler is Some {
            Err(XP3ErrorKind::InvalidFileIndex)
        } else {
            match parse_adler(payload) {
                Ok(a) => Ok(FileFragments { adler: Some(a), ..acc }),
                Err(e) => Err(e),
            }
        }
    } else if identifier == XP3_INDEX_TIME_IDENTIFIER {
        match parse_time(payload) {
            Ok(t) => Ok(FileFragments { time: Some(t), ..acc }),
            Err(e) => Err(e),
        }
    } else {
        Ok(acc)
    }
}

/// Walks sub-records at `pos` in `s` until at least `end` bytes of them have
/// gone by, gathering fragments. Yields the final position and the gathered
/// fragments.
pub open spec fn walk_fragments(s: Seq<u8>, pos: int, end: int, acc: FileFragments) -> Result<
    (int, FileFragments),
    XP3ErrorKind,
>
    decreases s.len() - pos,
{
    if pos >= end {
        Ok((pos, acc))
    } else {
        match parse_tlv(s, pos) {
            Err(e) => Err(e),
            Ok((consumed, identifier, payload)) => match apply_fragment(
                acc,
                identifier,
                payload,
            ) {
                Err(e) => Err(e),
                Ok(next) => walk_fragments(s, pos + consumed, end, next),
            },
        }
    }
}

/// What decoding a File record from the payload `s` (declared `file_size`
/// bytes long) yields: the walked fragments, which must include an Info, a
/// Segment-list and an Adler; Time stays optional.
pub open spec fn parse_file_index(s: Seq<u8>, file_size: int) -> Result<
    XP3FileIndexView,
    XP3ErrorKind,
> {
    match walk_fragments(s, 0, file_size, empty_fragments()) {
        Err(e) => Err(e),
        Ok((end_pos, f)) => if f.info is Some && f.segments is Some && f.adler is Some {
            Ok(
                XP3FileIndexView {
                    info: f.info->0,
                    segments: f.segments->0,
                    adler: f.adler->0,
                    time: f.time,
                },
            )
        } else {
            Err(XP3ErrorKind::InvalidFileIndex)
        },
    }
}

/// The wire form of a File record's payload: its fragments, each wrapped as
/// a sub-record, in the fixed order Adler, Time, Info, Segment-list.
pub open spec fn file_index_bytes(f: XP3FileIndexView) -> Seq<u8> {
    tlv_bytes(XP3_INDEX_ADLR_IDENTIFIER, adler_bytes(f.adler)) + (match f.time {
        Some(t) => tlv_bytes(XP3_INDEX_TIME_IDENTIFIER, time_bytes(t)),
        None => Seq::empty(),
    }) + tlv_bytes(XP3_INDEX_INFO_IDENTIFIER, info_bytes(f.info)) + tlv_bytes(
        XP3_INDEX_SEGM_IDENTIFIER,
        segment_list_bytes(f.segments),
    )
}

/// A File record: the per-file metadata bundle of one archive entry.
#[derive(Debug, Clone)]
pub struct XP3FileIndex {
    /// The Info fragment.
    pub info: XP3FileIndexInfo,
    /// The segments, in index order.
    pub segments: Vec<XP3FileIndexSegment>,
    /// The Adler fragment.
    pub adler: XP3FileIndexAdler,
    /// The Time fragment, if present.
    pub time: Option<XP3FileIndexTime>,
}

impl View for XP3FileIndex {
    type V = XP3FileIndexView;

    open spec fn view(&self) -> XP3FileIndexView {
        XP3FileIndexView {
            info: self.info@,
            segments: self.segments@,
            adler: self.adler,
            time: self.time,
        }
    }
}

impl XP3FileIndex {
    /// Makes a File record from its fragments.
    pub fn new(
        info: XP3FileIndexInfo,
        segments: Vec<XP3FileIndexSegment>,
        adler: XP3FileIndexAdler,
        time: Option<XP3FileIndexTime>,
    ) -> (r: Self)
        ensures
            r@ == (XP3FileIndexView { info: info@, segments: segments@, adler, time }),
    {
        XP3FileIndex { info, segments, adler, time }
    }

    /// The Time fragment, if present.
    pub fn time(&self) -> (r: Option<XP3FileIndexTime>)
        ensures
            r == self@.time,
    {
        self.time
    }

    /// The Adler fragment.
    pub fn adler(&self) -> (r: XP3FileIndexAdler)
        ensures
            r == self@.adler,
    {
        self.adler
    }

    /// The Info fragment.
    pub fn info(&self) -> (r: &XP3FileIndexInfo)
        ensures
            r@ == self@.info,
    {
        &self.info
    }

    /// The segments, in index order.
    pub fn segments(&self) -> (r: &Vec<XP3FileIndexSegment>)
        ensures
            r@ == self@.segments,
    {
        &self.segments
    }

    /// Decodes a File record from the payload `data`, walking `file_size`
    /// bytes of sub-records, per [`parse_file_index`]. Returns the bytes
    /// walked and the record.
    pub fn from_bytes(file_size: u64, data: &[u8]) -> (r: Result<(u64, Self), XP3Error>)
        ensures
            r matches Ok(v) ==> parse_file_index(data@, file_size as int) == Ok::<
                _,
                XP3ErrorKind,
            >(v.1@) && (walk_fragments(data@, 0, file_size as int, empty_fragments()) matches Ok(w)
                && w.0 == v.0),
            r matches Err(e) ==> parse_file_index(data@, file_size as int) == Err::<
                XP3FileIndexView,
                _,
            >(e.spec_kind()),
    {
        let mut info: Option<XP3FileIndexInfo> = None;
        let mut segments: Option<Vec<XP3FileIndexSegment>> = None;
        let mut adler: Option<XP3FileIndexAdler> = None;
        let mut time: Option<XP3FileIndexTime> = None;
        let mut pos: usize = 0;
        let n = data.len();
        while (pos as u64) < file_size
            invariant
                pos <= n,
                n == data@.len(),
                walk_fragments(data@, 0, file_size as int, empty_fragments())
                    == walk_fragments(
                    data@,
                    pos as int,
                    file_size as int,
                    fragments_of(info, segments, adler, time),
                ),
            decreases n - pos,
        {
            let (consumed, record) = match crate::index::XP3Index::from_bytes(data, pos) {
                Ok(v) => v,
                Err(e) => {
                    return Err(e);
                },
            };
            let identifier = record.identifier;
            if identifier == XP3_INDEX_INFO_IDENTIFIER {
                if info.is_some() {
                    return Err(XP3Error::new(XP3ErrorKind::InvalidFileIndex));
                }
                match XP3FileIndexInfo::from_bytes(record.data.as_slice()) {
                    Ok((_, v)) => {
                        info = Some(v);
                    },
                    Err(e) => {
                        return Err(e);
                    },
                }
            } else if identifier == XP3_INDEX_SEGM_IDENTIFIER {
                if segments.is_some() {
                    return Err(XP3Error::new(XP3ErrorKind::InvalidFileIndex));
                }
                match segments_from_payload(record.data.as_slice()) {
                    Ok(v) => {
                        segments = Some(v);
                    },
                    Err(e) => {
                        return Err(e);
                    },
                }
            } else if identifier == XP3_INDEX_ADLR_IDENTIFIER {
                if adler.is_some() {
                    return Err(XP3Error::new(XP3ErrorKind::InvalidFileIndex));
                }
                match XP3FileIndexAdler::from_bytes(record.data.as_slice()) {
                    Ok((_, v)) => {
                        adler = Some(v);
                    },
                    Err(e) => {
                        return Err(e);
                    },
                }
            } else if identifier == XP3_INDEX_TIME_IDENTIFIER {
                match XP3FileIndexTime::from_bytes(record.data.as_slice()) {
                    Ok((_, v)) => {
                        time = Some(v);
                    },
                    Err(e) => {
                        return Err(e);
                    },
                }
            }
            pos = pos + consumed as usize;
        }
        let info = match info {
            Some(v) => v,
            None => {
                return Err(XP3Error::new(XP3ErrorKind::InvalidFileIndex));
            },
        };
        let segments = match segments {
            Some(v) => v,
            None => {
                return Err(XP3Error::new(XP3ErrorKind::InvalidFileIndex));
            },
        };
        let adler = match adler {
            Some(v) => v,
            None => {
                return Err(XP3Error::new(XP3ErrorKind::InvalidFileIndex));
            },
        };
        Ok((pos as u64, XP3FileIndex { info, segments, adler, time }))
    }

    /// Appends the record's payload wire form to `out`: Adler, Time (if
    /// present), Info, then the Segment-list, each wrapped as a sub-record.
    /// Returns the bytes written, or `Io` (writing nothing) for a segment
    /// list whose sub-record cannot be sized in a `u64`.
    pub fn write_bytes(&self, out: &mut Vec<u8>) -> (r: Result<u64, XP3Error>)
        ensures
            r is Ok <==> 28 * self@.segments.len() + 12 <= u64::MAX,
            r matches Ok(n) ==> final(out)@ == old(out)@ + file_index_bytes(self@) && n
                == file_index_bytes(self@).len(),
            r matches Err(e) ==> final(out)@ == old(out)@ && e.spec_kind() == XP3ErrorKind::Io,
    {
        let mut segm_buf: Vec<u8> = Vec::new();
        let mut i: usize = 0;
        while i < self.segments.len()
            invariant
                i <= self.segments.len(),
                segm_buf@ == segment_list_bytes(self@.segments.take(i as int)),
                segm_buf@.len() == 28 * i,
            decreases self.segments.len() - i,
        {
            let seg = self.segments[i];
            seg.write_bytes(&mut segm_buf);
            proof {
                crate::le::lemma_le32_round_trip();
                crate::le::lemma_le64_round_trip();
                lemma_segment_list_bytes_push(self@.segments.take(i as int), seg);
                assert(self@.segments.take(i as int).push(seg) =~= self@.segments.take(
                    i as int + 1,
                ));
            }
            i = i + 1;
        }
        proof {
            assert(self@.segments.take(self.segments.len() as int) =~= self@.segments);
        }
        if segm_buf.len() as u64 > u64::MAX - 12 {
            return Err(XP3Error::new(XP3ErrorKind::Io));
        }
        let start = out.len();
        let mut adlr_buf: Vec<u8> = Vec::new();
        self.adler.write_bytes(&mut adlr_buf);
        proof {
            crate::le::lemma_le16_round_trip();
            crate::le::lemma_le32_round_trip();
            crate::le::lemma_le64_round_trip();
        }
        match (crate::index::XP3Index {
            identifier: XP3_INDEX_ADLR_IDENTIFIER,
            data: adlr_buf,
        }).write_bytes(out) {
            Ok(_) => {},
            Err(e) => {
                return Err(e);
            },
        }
        if let Some(t) = self.time {
            let mut time_buf: Vec<u8> = Vec::new();
            t.write_bytes(&mut time_buf);
            match (crate::index::XP3Index {
                identifier: XP3_INDEX_TIME_IDENTIFIER,
                data: time_buf,
            }).write_bytes(out) {
                Ok(_) => {},
                Err(e) => {
                    return Err(e);
                },
            }
        }
        let mut info_buf: Vec<u8> = Vec::new();
        self.info.write_bytes(&mut info_buf);
        proof {
            let units = spec_info_name_units(self@.info.name);
            assert(2 * units <= utf16_bytes_of(self@.info.name).len());
            assert(info_buf@.len() <= 65556);
        }
        match (crate::index::XP3Index {
            identifier: XP3_INDEX_INFO_IDENTIFIER,
            data: info_buf,
        }).write_bytes(out) {
            Ok(_) => {},
            Err(e) => {
                return Err(e);
            },
        }
        match (crate::index::XP3Index {
            identifier: XP3_INDEX_SEGM_IDENTIFIER,
            data: segm_buf,
        }).write_bytes(out) {
            Ok(_) => {},
            Err(e) => {
                return Err(e);
            },
        }
        proof {
            assert(out@ =~= old(out)@ + file_index_bytes(self@));
        }
        Ok((out.len() - start) as u64)
    }
}

/// Decodes a Segment-list payload: one segment per 28 bytes, per
/// [`parse_segment_list`].
fn segments_from_payload(data: &[u8]) -> (r: Result<Vec<XP3FileIndexSegment>, XP3Error>)
    ensures
        r matches Ok(v) ==> parse_segment_list(data@) == Ok::<_, XP3ErrorKind>(v@),
        r matches Err(e) ==> parse_segment_list(data@) == Err::<Seq<XP3FileIndexSegment>, _>(
            e.spec_kind(),
        ),
{
    let n = data.len();
    let mut list: Vec<XP3FileIndexSegment> = Vec::new();
    let mut pos: usize = 0;
    proof {
        assert(data@.skip(0) =~= data@);
        if parse_segment_list(data@) is Ok {
            assert(list@ + parse_segment_list(data@)->Ok_0 =~= parse_segment_list(data@)->Ok_0);
        }
    }
    while pos < n
        invariant
            pos <= n,
            n == data@.len(),
            parse_segment_list(data@) == (match parse_segment_list(data@.skip(pos as int)) {
                Ok(rest) => Ok::<_, XP3ErrorKind>(list@ + rest),
                Err(e) => Err(e),
            }),
        decreases n - pos,
    {
        if n - pos < 28 {
            return Err(XP3Error::new(XP3ErrorKind::InvalidFileIndex));
        }
        let (_, seg) = match XP3FileIndexSegment::from_bytes(data, pos) {
            Ok(v) => v,
            Err(e) => {
                proof {
                    lemma_parse_segment_shift(data@, pos as int);
                }
                return Err(e);
            },
        };
        proof {
            lemma_parse_segment_shift(data@, pos as int);
            assert(data@.skip(pos as int).skip(28) =~= data@.skip(pos as int + 28));
            assert(list@.push(seg) + (match parse_segment_list(data@.skip(pos as int + 28)) {
                Ok(rest) => rest,
                Err(_) => Seq::empty(),
            }) =~= list@ + (seq![seg] + (match parse_segment_list(data@.skip(pos as int + 28)) {
                Ok(rest) => rest,
                Err(_) => Seq::empty(),
            })));
        }
        list.push(seg);
        pos = pos + 28;
    }
    proof {
        assert(data@.skip(pos as int) =~= Seq::<u8>::empty());
        assert(list@ + Seq::<XP3FileIndexSegment>::empty() =~= list@);
    }
    Ok(list)
}

/// Decoding a segment-list payload built from `segs` gives `segs` back.
pub proof fn lemma_segment_list_round_trip(segs: Seq<XP3FileIndexSegment>)
    ensures
        parse_segment_list(segment_list_bytes(segs)) == Ok::<_, XP3ErrorKind>(segs),
    decreases segs.len(),
{
    crate::le::lemma_le32_round_trip();
    crate::le::lemma_le64_round_trip();
    lemma_segment_list_bytes_len(segs);
    let s = segment_list_bytes(segs);
    if segs.len() == 0 {
        assert(segs =~= Seq::<XP3FileIndexSegment>::empty());
    } else {
        lemma_segment_list_bytes_len(segs.drop_first());
        assert(s.subrange(0, 28) =~= segment_bytes(segs[0]));
        lemma_segment_round_trip(s, 0, segs[0]);
        assert(s.skip(28) =~= segment_list_bytes(segs.drop_first()));
        lemma_segment_list_round_trip(segs.drop_first());
        assert(seq![segs[0]] + segs.drop_first() =~= segs);
    }
}

/// Decoding the payload a File record was written to gives the record back,
/// provided the name survives its UTF-16 form and the segment list's
/// sub-record can be sized in a `u64`.
pub proof fn lemma_file_index_round_trip(f: XP3FileIndexView)
    requires
        name_survives_utf16(f.info.name),
        28 * f.segments.len() + 12 <= u64::MAX,
    ensures
        parse_file_index(file_index_bytes(f), file_index_bytes(f).len() as int) == Ok::<
            _,
            XP3ErrorKind,
        >(f),
{
    crate::le::lemma_le16_round_trip();
    crate::le::lemma_le32_round_trip();
    crate::le::lemma_le64_round_trip();
    lemma_segment_list_bytes_len(f.segments);
    let s = file_index_bytes(f);
    let end = s.len() as int;
    let a_pay = adler_bytes(f.adler);
    let t_len: int = match f.time {
        Some(_) => 20,
        None => 0,
    };
    let i_pay = info_bytes(f.info);
    let g_pay = segment_list_bytes(f.segments);
    let units = spec_info_name_units(f.info.name);
    assert(2 * units <= utf16_bytes_of(f.info.name).len());
    assert(i_pay.len() == 22 + 2 * units);
    let p2 = 16 + t_len;
    let p3 = p2 + 12 + i_pay.len() as int;
    assert(end == p3 + 12 + g_pay.len() as int);

    let acc0 = empty_fragments();
    // Adler sub-record at 0.
    assert(s.subrange(0, 16) =~= tlv_bytes(XP3_INDEX_ADLR_IDENTIFIER, a_pay));
    lemma_parse_tlv_at(s, 0, XP3_INDEX_ADLR_IDENTIFIER, a_pay);
    assert(a_pay.subrange(0, 4) =~= le32_bytes(f.adler.checksum));
    lemma_le32_at_of_bytes(a_pay, 0, f.adler.checksum);
    assert(parse_adler(a_pay) == Ok::<_, XP3ErrorKind>(f.adler));
    let acc1 = FileFragments { adler: Some(f.adler), ..acc0 };
    assert(apply_fragment(acc0, XP3_INDEX_ADLR_IDENTIFIER, a_pay) == Ok::<_, XP3ErrorKind>(acc1));
    assert(walk_fragments(s, 0, end, acc0) == walk_fragments(s, 16, end, acc1));

    // Time sub-record, if present, at 16.
    let acc2 = match f.time {
        Some(t) => FileFragments { time: Some(t), ..acc1 },
        None => acc1,
    };
    if let Some(t) = f.time {
        assert(s.subrange(16, 36) =~= tlv_bytes(XP3_INDEX_TIME_IDENTIFIER, time_bytes(t)));
        lemma_parse_tlv_at(s, 16, XP3_INDEX_TIME_IDENTIFIER, time_bytes(t));
        assert(time_bytes(t).subrange(0, 8) =~= le64_bytes(t.timestamp));
        lemma_le64_at_of_bytes(time_bytes(t), 0, t.timestamp);
        assert(parse_time(time_bytes(t)) == Ok::<_, XP3ErrorKind>(t));
        assert(apply_fragment(acc1, XP3_INDEX_TIME_IDENTIFIER, time_bytes(t)) == Ok::<
            _,
            XP3ErrorKind,
        >(acc2));
        assert(walk_fragments(s, 16, end, acc1) == walk_fragments(s, p2, end, acc2));
    }

    // Info sub-record at p2.
    assert(s.subrange(p2, p2 + 12 + i_pay.len()) =~= tlv_bytes(
        XP3_INDEX_INFO_IDENTIFIER,
        i_pay,
    ));
    lemma_parse_tlv_at(s, p2, XP3_INDEX_INFO_IDENTIFIER, i_pay);
    lemma_info_round_trip(f.info);
    let acc3 = FileFragments { info: Some(f.info), ..acc2 };
    assert(apply_fragment(acc2, XP3_INDEX_INFO_IDENTIFIER, i_pay) == Ok::<_, XP3ErrorKind>(acc3));
    assert(walk_fragments(s, p2, end, acc2) == walk_fragments(s, p3, end, acc3));

    // Segment-list sub-record at p3.
    assert(s.subrange(p3, p3 + 12 + g_pay.len()) =~= tlv_bytes(XP3_INDEX_SEGM_IDENTIFIER, g_pay));
    lemma_parse_tlv_at(s, p3, XP3_INDEX_SEGM_IDENTIFIER, g_pay);
    lemma_segment_list_round_trip(f.segments);
    let acc4 = FileFragments { segments: Some(f.segments), ..acc3 };
    assert(apply_fragment(acc3, XP3_INDEX_SEGM_IDENTIFIER, g_pay) == Ok::<_, XP3ErrorKind>(acc4));
    assert(walk_fragments(s, p3, end, acc3) == walk_fragments(s, end, end, acc4));
    assert(walk_fragments(s, end, end, acc4) == Ok::<_, XP3ErrorKind>((end, acc4)));
}

} // verus!
