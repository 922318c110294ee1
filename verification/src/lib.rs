//! A codec for the XP3 (kirikiri) game-archive container format.
//!
//! An XP3 archive is a magic-prefixed byte stream that bundles many named,
//! optionally zlib-compressed byte blobs behind a single trailing index.
//! This crate decodes and encodes the whole container on in-memory byte
//! buffers: the header, the tag-length-value index records, the per-file
//! metadata fragments, and the segment layout of the data region.

pub mod archive;
pub mod checksum;
pub mod header;
pub mod index;
pub mod index_set;
pub mod le;
pub mod reader;
pub mod text;
pub mod writer;
pub mod zlib;

pub use reader::XP3Reader;
pub use writer::XP3Writer;

use crate::header::XP3Header;
use crate::index_set::{XP3IndexSet, XP3IndexSetView};
use vstd::prelude::*;

verus! {

/// Marker that introduces the versioned (current) header form.
pub const XP3_CURRENT_VER_IDENTIFIER: u64 = 0x17;

/// Fixed version-identifier byte inside the versioned header.
pub const XP3_VERSION_IDENTIFIER: u8 = 128;

/// Identifier of a top-level File record in the index body ("File").
pub const XP3_INDEX_FILE_IDENTIFIER: u32 = 1701603654;

/// Identifier of the Info sub-record of a File record ("info").
pub const XP3_INDEX_INFO_IDENTIFIER: u32 = 1868983913;

/// Identifier of the Segment-list sub-record of a File record ("segm").
pub const XP3_INDEX_SEGM_IDENTIFIER: u32 = 1835492723;

/// Identifier of the Adler-checksum sub-record of a File record ("adlr").
pub const XP3_INDEX_ADLR_IDENTIFIER: u32 = 1919706209;

/// Identifier of the Time sub-record of a File record ("time").
pub const XP3_INDEX_TIME_IDENTIFIER: u32 = 1701669236;

/// The magic constant as a sequence, for contracts.
pub open spec fn spec_xp3_magic() -> Seq<u8> {
    seq![0x58u8, 0x50u8, 0x33u8, 0x0du8, 0x0au8, 0x20u8, 0x0au8, 0x1au8, 0x8bu8, 0x67u8]
}

/// The magic constant as a vector.
pub fn xp3_magic() -> (r: Vec<u8>)
    ensures
        r@ == spec_xp3_magic(),
{
    let mut v: Vec<u8> = Vec::new();
    v.push(0x58);
    v.push(0x50);
    v.push(0x33);
    v.push(0x0d);
    v.push(0x0a);
    v.push(0x20);
    v.push(0x0a);
    v.push(0x1a);
    v.push(0x8b);
    v.push(0x67);
    proof {
        assert(v@ =~= spec_xp3_magic());
    }
    v
}

/// What went wrong while decoding or encoding an archive.
#[derive(Debug, Clone, Copy, PartialEq, Eq, Structural)]
pub enum XP3ErrorKind {
    /// The input ended early or an underlying byte operation failed.
    Io,
    /// The stream does not start with the XP3 magic bytes.
    InvalidFile,
    /// The versioned header's identifier byte is wrong.
    InvalidHeader,
    /// The index compression selector is neither 0 nor 1.
    InvalidFileIndexHeader,
    /// A File record is malformed: duplicate, missing or misaligned sub-record.
    InvalidFileIndex,
    /// A flag field holds a value outside its closed set.
    InvalidFileIndexFlag,
    /// The requested entry name is not in the archive.
    FileNotFound,
}

/// An error of this crate, carrying the kind of failure.
#[derive(Debug, Clone, Copy, PartialEq, Eq, Structural)]
pub struct XP3Error {
    kind: XP3ErrorKind,
}

impl XP3Error {
    /// The kind of failure this error reports, for contracts.
    pub closed spec fn spec_kind(&self) -> XP3ErrorKind {
        self.kind
    }

    /// Wraps a kind into an error value.
    pub fn new(kind: XP3ErrorKind) -> (r: Self)
        ensures
            r.spec_kind() == kind,
    {
        XP3Error { kind }
    }

    /// The kind of failure this error reports.
    pub fn kind(&self) -> (r: &XP3ErrorKind)
        ensures
            r == self.spec_kind(),
    {
        &self.kind
    }
}

/// The abstract value of a decoded container.
pub ghost struct VirtualXP3View {
    /// The archive header.
    pub header: XP3Header,
    /// The whole-archive index.
    pub index_set: XP3IndexSetView,
}

/// A virtual XP3 container: the decoded header and index of an archive,
/// without its data region.
#[derive(Debug)]
pub struct VirtualXP3 {
    /// The archive header.
    pub header: XP3Header,
    /// The whole-archive index.
    pub index_set: XP3IndexSet,
}

impl View for VirtualXP3 {
    type V = VirtualXP3View;

    open spec fn view(&self) -> VirtualXP3View {
        VirtualXP3View { header: self.header, index_set: self.index_set@ }
    }
}

impl VirtualXP3 {
    /// Makes a container from a header and an index set.
    pub fn new(header: XP3Header, index_set: XP3IndexSet) -> (r: Self)
        ensures
            r@.header == header,
            r@.index_set == index_set@,
    {
        VirtualXP3 { header, index_set }
    }

    /// The archive header.
    pub fn header(&self) -> (r: XP3Header)
        ensures
            r == self@.header,
    {
        self.header
    }

    /// Replaces the archive header.
    pub fn set_header(&mut self, header: XP3Header)
        ensures
            final(self)@ == (VirtualXP3View { header, ..old(self)@ }),
    {
        self.header = header;
    }

    /// The whole-archive index.
    pub fn index_set(&self) -> (r: &XP3IndexSet)
        ensures
            r@ == self@.index_set,
    {
        &self.index_set
    }

    /// Replaces the whole-archive index.
    pub fn set_index_set(&mut self, index_set: XP3IndexSet)
        ensures
            final(self)@ == (VirtualXP3View { index_set: index_set@, ..old(self)@ }),
    {
        self.index_set = index_set;
    }
}

} // verus!
