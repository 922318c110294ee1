//! The writer side: streaming segment data into an in-memory archive, then
//! backpatching the index-offset pointer and appending the index set.

use crate::checksum::{adler32_extend, adler32_hash, adler32_of};
use crate::header::{header_bytes, XP3Header, XP3HeaderVersion};
use crate::index::file::{
    IndexInfoFlag, IndexSegmentFlag, XP3FileIndex, XP3FileIndexAdler, XP3FileIndexInfo,
    XP3FileIndexInfoView, XP3FileIndexSegment, XP3FileIndexTime, XP3FileIndexView,
};
use crate::index::XP3Index;
use crate::index_set::{
    extras_view, files_view, index_set_bytes, index_set_encodable, insert_file_view,
    XP3IndexCompression, XP3IndexSet, XP3IndexSetView,
};
use crate::le::{le64_bytes, write_u64};
use crate::reader::segment_output;
use crate::zlib::{deflate, deflate_of};
use crate::{spec_xp3_magic, VirtualXP3, VirtualXP3View, XP3Error, XP3ErrorKind};
use vstd::bytes::u64_to_le_bytes;
use vstd::prelude::*;

verus! {

/// The bytes a segment occupies in the archive: the data itself, or its
/// deflated form.
pub open spec fn stored_bytes(flag: IndexSegmentFlag, data: Seq<u8>) -> Seq<u8> {
    match flag {
        IndexSegmentFlag::UnCompressed => data,
        IndexSegmentFlag::Compressed => deflate_of(data),
    }
}

/// `s` with the bytes at `pos` replaced by `repl`.
pub open spec fn patch_at(s: Seq<u8>, pos: int, repl: Seq<u8>) -> Seq<u8> {
    s.take(pos) + repl + s.skip(pos + repl.len() as int)
}

/// A writer building an archive in memory, from its origin at offset 0.
pub struct XP3Writer {
    out: Vec<u8>,
    index_pos: usize,
    header: XP3Header,
    index_set: XP3IndexSet,
}

impl XP3Writer {
    /// The bytes written so far, for contracts.
    pub closed spec fn spec_out(&self) -> Seq<u8> {
        self.out@
    }

    /// Where the index-offset placeholder sits, for contracts.
    pub closed spec fn spec_index_pos(&self) -> int {
        self.index_pos as int
    }

    /// The header being written, for contracts.
    pub closed spec fn spec_header(&self) -> XP3Header {
        self.header
    }

    /// The index set gathered so far, for contracts.
    pub closed spec fn spec_index_set(&self) -> XP3IndexSetView {
        self.index_set@
    }

    /// The writer's bytes always start with the magic, the fixed
    /// version-selector byte, the header, and then the eight-byte
    /// index-offset slot.
    pub open spec fn wf(&self) -> bool {
        &&& self.spec_index_pos() == 11 + header_bytes(self.spec_header()).len()
        &&& self.spec_out().len() >= self.spec_index_pos() + 8
        &&& self.spec_out().subrange(0, 10) == spec_xp3_magic()
        &&& self.spec_out()[10] == 1u8
        &&& self.spec_out().subrange(11, self.spec_index_pos()) == header_bytes(
            self.spec_header(),
        )
    }

    /// Starts a new archive: writes the magic, the version-selector byte,
    /// the header, and a zero placeholder for the index offset.
    pub fn start(version: XP3HeaderVersion, index_compression: XP3IndexCompression) -> (r: Self)
        ensures
            r.wf(),
            r.spec_header().spec_version() == version,
            r.spec_index_set() == (XP3IndexSetView {
                compression: index_compression,
                extra: Seq::empty(),
                files: Seq::empty(),
            }),
            r.spec_out() == spec_xp3_magic() + seq![1u8] + header_bytes(r.spec_header())
                + le64_bytes(0),
    {
        let header = XP3Header::new(version);
        let mut out = crate::xp3_magic();
        out.push(1);
        header.write_bytes(&mut out);
        let index_pos = out.len();
        write_u64(&mut out, 0);
        let index_set = XP3IndexSet::new(index_compression, Vec::new(), Vec::new());
        proof {
            crate::le::lemma_le64_round_trip();
            assert(out@.subrange(0, 10) =~= spec_xp3_magic());
            assert(out@.subrange(11, index_pos as int) =~= header_bytes(header));
            assert(out@ =~= spec_xp3_magic() + seq![1u8] + header_bytes(header) + le64_bytes(0));
            assert(extras_view(Seq::<XP3Index>::empty()) =~= Seq::<crate::index::XP3IndexView>::empty());
            assert(files_view(Seq::<XP3FileIndex>::empty()) =~= Seq::<XP3FileIndexView>::empty());
        }
        XP3Writer { out, index_pos, header, index_set }
    }

    /// Adds an extra top-level record to be written with the index set.
    pub fn append_extra_index(&mut self, index: XP3Index)
        ensures
            final(self).spec_index_set() == (XP3IndexSetView {
                extra: old(self).spec_index_set().extra.push(index@),
                ..old(self).spec_index_set()
            }),
            final(self).spec_out() == old(self).spec_out(),
            final(self).spec_header() == old(self).spec_header(),
            final(self).spec_index_pos() == old(self).spec_index_pos(),
            old(self).wf() ==> final(self).wf(),
    {
        let ghost pre = extras_view(self.index_set.extra@);
        let ghost rec = index@;
        self.index_set.extra.push(index);
        proof {
            assert(extras_view(self.index_set.extra@) =~= pre.push(rec));
        }
    }

    /// The write position: how many bytes stand between the origin and the
    /// write head.
    pub fn current_pos(&self) -> (r: u64)
        ensures
            r == self.spec_out().len(),
    {
        self.out.len() as u64
    }

    /// Opens an entry: segment data written through the returned
    /// [`EntryWriter`] belongs to the file named `name` until the entry is
    /// finished.
    pub fn enter_file(self, protection: IndexInfoFlag, name: String, timestamp: Option<u64>) -> (r:
        EntryWriter)
        ensures
            r.writer == self,
            r.protection == protection,
            r.name@ == name@,
            r.timestamp == timestamp,
            r.saved_size == 0 && r.original_size == 0,
            r.processed@ == Seq::<u8>::empty(),
            r.adler == adler32_of(Seq::<u8>::empty()),
            r.written_segments@ == Seq::<XP3FileIndexSegment>::empty(),
            r.default_flag is UnCompressed,
    {
        EntryWriter::new(self, protection, name, timestamp)
    }

    /// Finishes the archive: backpatches the index-offset slot with the
    /// position the write head reached, then appends the index set there.
    /// Yields the container and the finished bytes, or `Io` when some index
    /// record cannot be sized in a `u64` (the bytes then stay as they were).
    pub fn finish(self) -> (r: Result<(VirtualXP3, Vec<u8>), XP3Error>)
        requires
            self.wf(),
        ensures
            r is Ok <==> index_set_encodable(self.spec_index_set()),
            r matches Ok(v) ==> v.0@ == (VirtualXP3View {
                header: self.spec_header(),
                index_set: self.spec_index_set(),
            }) && v.1@ == patch_at(
                self.spec_out(),
                self.spec_index_pos(),
                le64_bytes(self.spec_out().len() as u64),
            ) + index_set_bytes(self.spec_index_set()),
            r matches Err(e) ==> e.spec_kind() == XP3ErrorKind::Io,
    {
        let mut this = self;
        let current = this.out.len();
        let patch = u64_to_le_bytes(current as u64);
        let mut i: usize = 0;
        while i < 8
            invariant
                i <= 8,
                this.index_pos + 8 <= this.out@.len(),
                this.out@.len() == self.spec_out().len(),
                patch@ == le64_bytes(current as u64),
                current == self.spec_out().len(),
                this.index_pos == self.spec_index_pos(),
                this.spec_index_set() == self.spec_index_set(),
                this.spec_header() == self.spec_header(),
                this.index_set == self.index_set,
                this.header == self.header,
                forall|j: int|
                    0 <= j < this.out@.len() ==> this.out@[j] == (if self.spec_index_pos() <= j
                        < self.spec_index_pos() + i {
                        le64_bytes(current as u64)[j - self.spec_index_pos()]
                    } else {
                        self.spec_out()[j]
                    }),
            decreases 8 - i,
        {
            proof {
                crate::le::lemma_le64_round_trip();
            }
            this.out.set(this.index_pos + i, patch[i]);
            i = i + 1;
        }
        match this.index_set.write_bytes(&mut this.out) {
            Ok(_) => {},
            Err(e) => {
                return Err(e);
            },
        }
        proof {
            crate::le::lemma_le64_round_trip();
            assert(this.out@ =~= patch_at(
                self.spec_out(),
                self.spec_index_pos(),
                le64_bytes(self.spec_out().len() as u64),
            ) + index_set_bytes(self.spec_index_set()));
        }
        let container = VirtualXP3::new(this.header, this.index_set);
        Ok((container, this.out))
    }
}

/// An entry being written: gathers its segments, sizes and rolling
/// checksum, then files the finished record into the writer's index.
pub struct EntryWriter {
    /// The writer the entry's segments go to.
    pub writer: XP3Writer,
    /// The entry's protection flag.
    pub protection: IndexInfoFlag,
    /// The entry's name.
    pub name: String,
    /// The entry's timestamp, if any.
    pub timestamp: Option<u64>,
    /// Stored bytes written so far.
    pub saved_size: u64,
    /// Uncompressed bytes consumed so far.
    pub original_size: u64,
    /// Rolling checksum of the bytes consumed so far.
    pub adler: u32,
    /// The bytes the checksum covers.
    pub processed: Ghost<Seq<u8>>,
    /// The flag used when no flag is given.
    pub default_flag: IndexSegmentFlag,
    /// The segments recorded so far.
    pub written_segments: Vec<XP3FileIndexSegment>,
}

impl EntryWriter {
    /// The underlying writer, for contracts.
    pub open spec fn spec_writer(&self) -> XP3Writer {
        self.writer
    }

    /// The entry's uncompressed bytes so far, for contracts.
    pub open spec fn spec_processed(&self) -> Seq<u8> {
        self.processed@
    }

    /// The checksum always covers exactly the bytes processed so far, and
    /// the writer keeps its shape.
    pub open spec fn wf(&self) -> bool {
        &&& self.spec_writer().wf()
        &&& self.adler == adler32_of(self.spec_processed())
    }

    /// Opens an entry on `writer`.
    pub fn new(
        writer: XP3Writer,
        protection: IndexInfoFlag,
        name: String,
        timestamp: Option<u64>,
    ) -> (r: Self)
        ensures
            r.writer == writer,
            r.protection == protection,
            r.name@ == name@,
            r.timestamp == timestamp,
            r.saved_size == 0 && r.original_size == 0,
            r.processed@ == Seq::<u8>::empty(),
            r.adler == adler32_of(Seq::<u8>::empty()),
            r.written_segments@ == Seq::<XP3FileIndexSegment>::empty(),
            r.default_flag is UnCompressed,
    {
        let empty: Vec<u8> = Vec::new();
        let adler = adler32_hash(empty.as_slice());
        EntryWriter {
            writer,
            protection,
            name,
            timestamp,
            saved_size: 0,
            original_size: 0,
            adler,
            processed: Ghost(Seq::empty()),
            default_flag: IndexSegmentFlag::UnCompressed,
            written_segments: Vec::new(),
        }
    }

    /// The flag segments are written with when none is given.
    pub fn default_flag(&self) -> (r: IndexSegmentFlag)
        ensures
            r == self.default_flag,
    {
        self.default_flag
    }

    /// Replaces the default segment flag.
    pub fn set_default_flag(&mut self, flag: IndexSegmentFlag)
        ensures
            *final(self) == (EntryWriter { default_flag: flag, ..*old(self) }),
    {
        self.default_flag = flag;
    }

    /// Writes one segment: appends `data` (deflated when `flag` says so) to
    /// the archive and records a segment pointing at it. Returns the stored
    /// size. `Io` (changing nothing) when a size accumulator would
    /// overflow.
    pub fn write_segment(&mut self, flag: IndexSegmentFlag, data: &[u8]) -> (r: Result<
        u64,
        XP3Error,
    >)
        ensures
            r is Ok <==> old(self).original_size + data@.len() <= u64::MAX && old(
                self,
            ).saved_size + stored_bytes(flag, data@).len() <= u64::MAX,
            r matches Ok(n) ==> {
                let seg = XP3FileIndexSegment {
                    flag,
                    data_offset: old(self).spec_writer().spec_out().len() as u64,
                    original_size: data@.len() as u64,
                    saved_size: stored_bytes(flag, data@).len() as u64,
                };
                &&& n == stored_bytes(flag, data@).len()
                &&& final(self).spec_writer().spec_out() == old(self).spec_writer().spec_out()
                    + stored_bytes(flag, data@)
                &&& final(self).written_segments@ == old(self).written_segments@.push(seg)
                &&& segment_output(final(self).spec_writer().spec_out(), seg) == Some(data@)
                &&& final(self).spec_processed() == old(self).spec_processed() + data@
                &&& (old(self).adler == adler32_of(old(self).spec_processed())
                    ==> final(self).adler == adler32_of(final(self).spec_processed()))
                &&& final(self).original_size == old(self).original_size + data@.len()
                &&& final(self).saved_size == old(self).saved_size + stored_bytes(
                    flag,
                    data@,
                ).len()
                &&& final(self).spec_writer().spec_header() == old(
                    self,
                ).spec_writer().spec_header()
                &&& final(self).spec_writer().spec_index_pos() == old(
                    self,
                ).spec_writer().spec_index_pos()
                &&& final(self).spec_writer().spec_index_set() == old(
                    self,
                ).spec_writer().spec_index_set()
                &&& final(self).protection == old(self).protection
                &&& final(self).name@ == old(self).name@
                &&& final(self).timestamp == old(self).timestamp
                &&& final(self).default_flag == old(self).default_flag
                &&& (old(self).wf() ==> final(self).wf())
            },
            r matches Err(e) ==> e.spec_kind() == XP3ErrorKind::Io && *final(self) == *old(self),
    {
        let original = data.len() as u64;
        if original > u64::MAX - self.original_size {
            return Err(XP3Error::new(XP3ErrorKind::Io));
        }
        let offset = self.writer.out.len() as u64;
        let saved: u64;
        match flag {
            IndexSegmentFlag::UnCompressed => {
                if original > u64::MAX - self.saved_size {
                    return Err(XP3Error::new(XP3ErrorKind::Io));
                }
                self.writer.out.extend_from_slice(data);
                saved = original;
            },
            IndexSegmentFlag::Compressed => {
                let compressed = deflate(data);
                saved = compressed.len() as u64;
                if saved > u64::MAX - self.saved_size {
                    return Err(XP3Error::new(XP3ErrorKind::Io));
                }
                self.writer.out.extend_from_slice(compressed.as_slice());
            },
        }
        let seg = XP3FileIndexSegment {
            flag,
            data_offset: offset,
            original_size: original,
            saved_size: saved,
        };
        self.written_segments.push(seg);
        self.saved_size = self.saved_size + saved;
        self.original_size = self.original_size + original;
        self.adler = adler32_extend(self.adler, data);
        proof {
            self.processed@ = self.processed@ + data@;
            assert(self.writer.out@.subrange(
                seg.data_offset as int,
                seg.data_offset + seg.saved_size,
            ) =~= stored_bytes(flag, data@));
            if flag is UnCompressed {
                assert(segment_output(self.writer.out@, seg) == Some(data@));
            } else {
                assert(data@.take(data@.len() as int) =~= data@);
            }
            if old(self).wf() {
                assert(self.writer.out@.subrange(0, 10) =~= old(
                    self,
                ).writer.out@.subrange(0, 10));
                assert(self.writer.out@.subrange(11, self.writer.index_pos as int) =~= old(
                    self,
                ).writer.out@.subrange(11, old(self).writer.index_pos as int));
            }
        }
        Ok(saved)
    }

    /// Writes one segment with the default flag.
    pub fn write_default_segment(&mut self, data: &[u8]) -> (r: Result<u64, XP3Error>)
        ensures
            r is Ok <==> old(self).original_size + data@.len() <= u64::MAX && old(
                self,
            ).saved_size + stored_bytes(old(self).default_flag, data@).len() <= u64::MAX,
            r matches Ok(n) ==> n == stored_bytes(old(self).default_flag, data@).len()
                && final(self).spec_writer().spec_out() == old(self).spec_writer().spec_out()
                + stored_bytes(old(self).default_flag, data@),
            r matches Err(e) ==> e.spec_kind() == XP3ErrorKind::Io && *final(self) == *old(self),
    {
        let flag = self.default_flag;
        self.write_segment(flag, data)
    }

    /// Closes the entry: bundles its Info, segments, checksum and optional
    /// time into a File record, files it into the writer's index by name,
    /// and hands the writer back.
    pub fn finish(self) -> (r: XP3Writer)
        ensures
            r.spec_out() == self.spec_writer().spec_out(),
            r.spec_header() == self.spec_writer().spec_header(),
            r.spec_index_pos() == self.spec_writer().spec_index_pos(),
            r.spec_index_set() == (XP3IndexSetView {
                files: insert_file_view(
                    self.spec_writer().spec_index_set().files,
                    XP3FileIndexView {
                        info: XP3FileIndexInfoView {
                            flag: self.protection,
                            file_size: self.original_size,
                            saved_file_size: self.saved_size,
                            name: self.name@,
                        },
                        segments: self.written_segments@,
                        adler: XP3FileIndexAdler { checksum: self.adler },
                        time: match self.timestamp {
                            Some(t) => Some(XP3FileIndexTime { timestamp: t }),
                            None => None,
                        },
                    },
                ),
                ..self.spec_writer().spec_index_set()
            }),
            self.wf() ==> r.wf(),
    {
        let EntryWriter {
            mut writer,
            protection,
            name,
            timestamp,
            saved_size,
            original_size,
            adler,
            processed: _,
            default_flag: _,
            written_segments,
        } = self;
        let time = match timestamp {
            Some(t) => Some(XP3FileIndexTime::new(t)),
            None => None,
        };
        let index = XP3FileIndex::new(
            XP3FileIndexInfo::new(protection, original_size, saved_size, name),
            written_segments,
            XP3FileIndexAdler::new(adler),
            time,
        );
        writer.index_set.insert(index);
        writer
    }
}

/// What a well-formed writer's `finish` hands out decodes back to the
/// header it started with and the index set it gathered: the backpatched
/// preamble, the data region and the appended index set line up exactly as
/// the reader walks them.
///
/// The hypotheses are those of the index set's own round trip, plus the
/// layout conditions: a versioned header must have been started with a zero
/// `index_size_offset`, and a legacy archive must not be exactly 23 bytes
/// long before the index (its pointer would spell the version marker).
pub proof fn lemma_writer_output_parses(w: XP3Writer, v: XP3IndexSetView)
    requires
        w.wf(),
        w.spec_out().len() <= u64::MAX,
        w.spec_header().spec_version() matches XP3HeaderVersion::Current { index_size_offset, .. }
            ==> index_size_offset == 0,
        w.spec_header().spec_version() is Old ==> w.spec_out().len()
            != crate::XP3_CURRENT_VER_IDENTIFIER,
        forall|i: int|
            0 <= i < v.extra.len() ==> (#[trigger] v.extra[i]).identifier
                != crate::XP3_INDEX_FILE_IDENTIFIER && crate::index_set::extra_encodable(
                v.extra[i],
            ),
        forall|i: int|
            0 <= i < v.files.len() ==> crate::index_set::file_encodable(#[trigger] v.files[i])
                && crate::index::file::name_survives_utf16(v.files[i].info.name),
        crate::index_set::names_unique(v.files),
        crate::index_set::index_body_bytes(v.extra, v.files).len() <= u64::MAX,
        v.compression is Compressed ==> deflate_of(
            crate::index_set::index_body_bytes(v.extra, v.files),
        ).len() <= u64::MAX && crate::zlib::inflate_prefix(
            deflate_of(crate::index_set::index_body_bytes(v.extra, v.files)),
            crate::index_set::index_body_bytes(v.extra, v.files).len() as int,
        ) == Some(crate::index_set::index_body_bytes(v.extra, v.files)),
    ensures
        crate::reader::parse_container(
            patch_at(
                w.spec_out(),
                w.spec_index_pos(),
                le64_bytes(w.spec_out().len() as u64),
            ) + index_set_bytes(v),
        ) == Ok::<_, crate::XP3ErrorKind>(
            VirtualXP3View { header: w.spec_header(), index_set: v },
        ),
{
    let h = w.spec_header();
    let hb = header_bytes(h);
    let ip = w.spec_index_pos();
    let data_region = w.spec_out().skip(ip + 8);
    let patched = patch_at(w.spec_out(), ip, le64_bytes(w.spec_out().len() as u64));
    crate::le::lemma_le64_round_trip();
    assert(19 + hb.len() + data_region.len() == w.spec_out().len());
    assert(patched + index_set_bytes(v) =~= crate::reader::archive_bytes(h, data_region, v));
    crate::reader::lemma_container_round_trip(h, data_region, v);
}

} // verus!
