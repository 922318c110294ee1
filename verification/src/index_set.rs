//! The whole-archive index: a compression flag, the File records keyed by
//! name, and any unrecognized top-level records, optionally deflated as a
//! unit.

use crate::index::file::{parse_file_index, XP3FileIndex, XP3FileIndexView};
use crate::index::{lemma_parse_tlv_at, parse_tlv, tlv_bytes, XP3Index, XP3IndexView};
use crate::le::{le64_at, le64_bytes, read_u64, write_u64};
use crate::zlib::{deflate, deflate_of, inflate, inflate_prefix};
use crate::{XP3Error, XP3ErrorKind, XP3_INDEX_FILE_IDENTIFIER};
use vstd::prelude::*;
use vstd::slice::slice_subrange;

verus! {

/// Whether the index body is stored deflated.
#[derive(Debug, Copy, Clone, PartialEq, Eq, Structural)]
pub enum XP3IndexCompression {
    UnCompressed,
    Compressed,
}

/// The byte a compression selector is stored as.
pub open spec fn spec_compression_value(c: XP3IndexCompression) -> u8 {
    match c {
        XP3IndexCompression::UnCompressed => 0,
        XP3IndexCompression::Compressed => 1,
    }
}

impl XP3IndexCompression {
    /// The byte this selector is stored as.
    pub fn value(self) -> (r: u8)
        ensures
            r == spec_compression_value(self),
    {
        match self {
            XP3IndexCompression::UnCompressed => 0,
            XP3IndexCompression::Compressed => 1,
        }
    }

    /// Reads a selector byte: 0 or 1, anything else is
    /// `InvalidFileIndexHeader`.
    pub fn try_from(val: u8) -> (r: Result<Self, XP3Error>)
        ensures
            val == 0 ==> r == Ok::<_, XP3Error>(XP3IndexCompression::UnCompressed),
            val == 1 ==> r == Ok::<_, XP3Error>(XP3IndexCompression::Compressed),
            val != 0 && val != 1 ==> (r matches Err(e) && e.spec_kind()
                == XP3ErrorKind::InvalidFileIndexHeader),
    {
        if val == 0 {
            Ok(XP3IndexCompression::UnCompressed)
        } else if val == 1 {
            Ok(XP3IndexCompression::Compressed)
        } else {
            Err(XP3Error::new(XP3ErrorKind::InvalidFileIndexHeader))
        }
    }
}

/// The records of a vector of general index records, as abstract values.
pub open spec fn extras_view(v: Seq<XP3Index>) -> Seq<XP3IndexView> {
    Seq::new(v.len(), |i: int| v[i]@)
}

/// The records of a vector of File records, as abstract values.
pub open spec fn files_view(v: Seq<XP3FileIndex>) -> Seq<XP3FileIndexView> {
    Seq::new(v.len(), |i: int| v[i]@)
}

/// The first File record named `name`, if any. Under [`names_unique`] it is
/// the only one.
pub open spec fn find_file(files: Seq<XP3FileIndexView>, name: Seq<char>) -> Option<
    XP3FileIndexView,
>
    decreases files.len(),
{
    if files.len() == 0 {
        None
    } else if files[0].info.name == name {
        Some(files[0])
    } else {
        find_file(files.drop_first(), name)
    }
}

/// Map-style insertion into the file list: a record replaces the first one
/// with its name, or goes to the end — the later record wins.
pub open spec fn insert_file_view(files: Seq<XP3FileIndexView>, f: XP3FileIndexView) -> Seq<
    XP3FileIndexView,
>
    decreases files.len(),
{
    if files.len() == 0 {
        seq![f]
    } else if files[0].info.name == f.info.name {
        seq![f] + files.drop_first()
    } else {
        seq![files[0]] + insert_file_view(files.drop_first(), f)
    }
}

/// No two File records share a name.
pub open spec fn names_unique(files: Seq<XP3FileIndexView>) -> bool {
    forall|i: int, j: int|
        0 <= i < j < files.len() ==> files[i].info.name != files[j].info.name
}

/// How one top-level record changes the gathered index: a File record is
/// decoded and inserted into the file list by name, anything else is kept
/// verbatim in the extras, in order.
pub open spec fn apply_record(
    extra: Seq<XP3IndexView>,
    files: Seq<XP3FileIndexView>,
    identifier: u32,
    payload: Seq<u8>,
) -> Result<(Seq<XP3IndexView>, Seq<XP3FileIndexView>), XP3ErrorKind> {
    if identifier == XP3_INDEX_FILE_IDENTIFIER {
        match parse_file_index(payload, payload.len() as int) {
            Ok(f) => Ok((extra, insert_file_view(files, f))),
            Err(e) => Err(e),
        }
    } else {
        Ok((extra.push(XP3IndexView { identifier, data: payload }), files))
    }
}

/// Walks top-level records at `pos` in `s` until at least `end` bytes of
/// them have gone by. Yields the final position, the extras and the files.
pub open spec fn walk_index(
    s: Seq<u8>,
    pos: int,
    end: int,
    extra: Seq<XP3IndexView>,
    files: Seq<XP3FileIndexView>,
) -> Result<(int, Seq<XP3IndexView>, Seq<XP3FileIndexView>), XP3ErrorKind>
    decreases s.len() - pos,
{
    if pos >= end {
        Ok((pos, extra, files))
    } else {
        match parse_tlv(s, pos) {
            Err(e) => Err(e),
            Ok((consumed, identifier, payload)) => match apply_record(
                extra,
                files,
                identifier,
                payload,
            ) {
                Err(e) => Err(e),
                Ok((extra2, files2)) => walk_index(s, pos + consumed, end, extra2, files2),
            },
        }
    }
}

/// The abstract value of an index set.
pub ghost struct XP3IndexSetView {
    /// Whether the index body is stored deflated.
    pub compression: XP3IndexCompression,
    /// Unrecognized top-level records, in original order.
    pub extra: Seq<XP3IndexView>,
    /// The File records, in the file list's order, keyed by name.
    pub files: Seq<XP3FileIndexView>,
}

/// What decoding an index set at `pos` in `s` yields: the bytes consumed and
/// the index set. A compression selector other than 0 or 1 is
/// `InvalidFileIndexHeader`; the declared sizes must be present in full, and
/// a deflated body that does not decompress is `Io`.
pub open spec fn parse_index_set(s: Seq<u8>, pos: int) -> Result<
    (int, XP3IndexSetView),
    XP3ErrorKind,
> {
    if pos + 1 > s.len() {
        Err(XP3ErrorKind::Io)
    } else if s[pos] != 0 && s[pos] != 1 {
        Err(XP3ErrorKind::InvalidFileIndexHeader)
    } else if s[pos] == 0 {
        if pos + 9 > s.len() {
            Err(XP3ErrorKind::Io)
        } else {
            let index_size = le64_at(s, pos + 1) as int;
            if pos + 9 + index_size > s.len() {
                Err(XP3ErrorKind::Io)
            } else {
                let body = s.subrange(pos + 9, pos + 9 + index_size);
                match walk_index(body, 0, index_size, Seq::empty(), Seq::empty()) {
                    Err(e) => Err(e),
                    Ok((_, extra, files)) => Ok(
                        (
                            9 + index_size,
                            XP3IndexSetView {
                                compression: XP3IndexCompression::UnCompressed,
                                extra,
                                files,
                            },
                        ),
                    ),
                }
            }
        }
    } else {
        if pos + 17 > s.len() {
            Err(XP3ErrorKind::Io)
        } else {
            let compressed_size = le64_at(s, pos + 1) as int;
            let index_size = le64_at(s, pos + 9) as int;
            if pos + 17 + compressed_size > s.len() {
                Err(XP3ErrorKind::Io)
            } else {
                let compressed = s.subrange(pos + 17, pos + 17 + compressed_size);
                match inflate_prefix(compressed, index_size) {
                    None => Err(XP3ErrorKind::Io),
                    Some(body) => match walk_index(
                        body,
                        0,
                        index_size,
                        Seq::empty(),
                        Seq::empty(),
                    ) {
                        Err(e) => Err(e),
                        Ok((_, extra, files)) => Ok(
                            (
                                17 + compressed_size,
                                XP3IndexSetView {
                                    compression: XP3IndexCompression::Compressed,
                                    extra,
                                    files,
                                },
                            ),
                        ),
                    },
                }
            }
        }
    }
}

/// The wire form of the extras, one record after another.
pub open spec fn extra_list_bytes(extra: Seq<XP3IndexView>) -> Seq<u8>
    decreases extra.len(),
{
    if extra.len() == 0 {
        Seq::empty()
    } else {
        tlv_bytes(extra[0].identifier, extra[0].data) + extra_list_bytes(extra.drop_first())
    }
}

/// The wire form of the file list: each File record's payload wrapped in a
/// File envelope, one after another.
pub open spec fn file_list_bytes(files: Seq<XP3FileIndexView>) -> Seq<u8>
    decreases files.len(),
{
    if files.len() == 0 {
        Seq::empty()
    } else {
        tlv_bytes(XP3_INDEX_FILE_IDENTIFIER, crate::index::file::file_index_bytes(files[0]))
            + file_list_bytes(files.drop_first())
    }
}

/// The index body: extras first, then the File records.
pub open spec fn index_body_bytes(extra: Seq<XP3IndexView>, files: Seq<XP3FileIndexView>) -> Seq<
    u8,
> {
    extra_list_bytes(extra) + file_list_bytes(files)
}

/// The wire form of an index set: the selector byte, then either the body's
/// size and the body, or the deflated body with both sizes in front.
pub open spec fn index_set_bytes(v: XP3IndexSetView) -> Seq<u8> {
    let body = index_body_bytes(v.extra, v.files);
    match v.compression {
        XP3IndexCompression::UnCompressed => seq![0u8] + le64_bytes(body.len() as u64) + body,
        XP3IndexCompression::Compressed => seq![1u8] + le64_bytes(deflate_of(body).len() as u64)
            + le64_bytes(body.len() as u64) + deflate_of(body),
    }
}

/// An extra record's envelope can be sized in a `u64`.
pub open spec fn extra_encodable(e: XP3IndexView) -> bool {
    e.data.len() + 12 <= u64::MAX
}

/// A File record's payload and envelope can be sized in a `u64`.
pub open spec fn file_encodable(f: XP3FileIndexView) -> bool {
    &&& 28 * f.segments.len() + 12 <= u64::MAX
    &&& crate::index::file::file_index_bytes(f).len() + 12 <= u64::MAX
}

/// Every record of the index set can be sized in a `u64`.
pub open spec fn index_set_encodable(v: XP3IndexSetView) -> bool {
    &&& forall|i: int| 0 <= i < v.extra.len() ==> extra_encodable(#[trigger] v.extra[i])
    &&& forall|i: int| 0 <= i < v.files.len() ==> file_encodable(#[trigger] v.files[i])
}

/// The whole-archive index set.
#[derive(Debug)]
pub struct XP3IndexSet {
    /// Whether the index body is stored deflated.
    pub compression: XP3IndexCompression,
    /// Unrecognized top-level records, in original order.
    pub extra: Vec<XP3Index>,
    /// The File records, keyed by name; kept free of duplicate names.
    pub files: Vec<XP3FileIndex>,
}

impl View for XP3IndexSet {
    type V = XP3IndexSetView;

    open spec fn view(&self) -> XP3IndexSetView {
        XP3IndexSetView {
            compression: self.compression,
            extra: extras_view(self.extra@),
            files: files_view(self.files@),
        }
    }
}

impl XP3IndexSet {
    /// Makes an index set from its parts. The file list stands for a
    /// mapping: callers keep it free of duplicate names.
    pub fn new(
        compression: XP3IndexCompression,
        extra: Vec<XP3Index>,
        files: Vec<XP3FileIndex>,
    ) -> (r: Self)
        ensures
            r@.compression == compression,
            r@.extra == extras_view(extra@),
            r@.files == files_view(files@),
    {
        XP3IndexSet { compression, extra, files }
    }

    /// The compression selector.
    pub fn compression(&self) -> (r: XP3IndexCompression)
        ensures
            r == self@.compression,
    {
        self.compression
    }

    /// Replaces the compression selector.
    pub fn set_compression(&mut self, compression: XP3IndexCompression)
        ensures
            final(self)@ == (XP3IndexSetView { compression, ..old(self)@ }),
    {
        self.compression = compression;
    }

    /// The File records, in the file list's order.
    pub fn indices(&self) -> (r: &Vec<XP3FileIndex>)
        ensures
            files_view(r@) == self@.files,
    {
        &self.files
    }

    /// The unrecognized top-level records.
    pub fn extra(&self) -> (r: &Vec<XP3Index>)
        ensures
            extras_view(r@) == self@.extra,
    {
        &self.extra
    }

    /// The unrecognized top-level records, for editing.
    pub fn extra_mut(&mut self) -> (r: &mut Vec<XP3Index>)
        ensures
            extras_view(r@) == old(self)@.extra,
            final(self)@.extra == extras_view(final(r)@),
            final(self)@.compression == old(self)@.compression,
            final(self)@.files == old(self)@.files,
    {
        &mut self.extra
    }

    /// The file list standing for the name → File record mapping.
    pub fn file_map(&self) -> (r: &Vec<XP3FileIndex>)
        ensures
            files_view(r@) == self@.files,
    {
        &self.files
    }

    /// The file list, for editing; callers keep it free of duplicate names.
    pub fn file_map_mut(&mut self) -> (r: &mut Vec<XP3FileIndex>)
        ensures
            files_view(r@) == old(self)@.files,
            final(self)@.files == files_view(final(r)@),
            final(self)@.compression == old(self)@.compression,
            final(self)@.extra == old(self)@.extra,
    {
        &mut self.files
    }

    /// The File records, in the file list's order.
    pub fn entries(&self) -> (r: &Vec<XP3FileIndex>)
        ensures
            files_view(r@) == self@.files,
    {
        &self.files
    }

    /// Looks a File record up by name, per [`find_file`].
    pub fn get(&self, name: &String) -> (r: Option<&XP3FileIndex>)
        ensures
            r matches Some(f) ==> find_file(self@.files, name@) == Some(f@),
            r is None ==> find_file(self@.files, name@) is None,
    {
        let mut i: usize = 0;
        let n = self.files.len();
        proof {
            assert(self@.files.skip(0) =~= self@.files);
        }
        while i < n
            invariant
                i <= n,
                n == self.files@.len(),
                find_file(self@.files, name@) == find_file(self@.files.skip(i as int), name@),
            decreases n - i,
        {
            proof {
                assert(self@.files.skip(i as int)[0] == self@.files[i as int]);
                assert(self@.files.skip(i as int).drop_first() =~= self@.files.skip(i as int + 1));
            }
            if self.files[i].info.name.eq(name) {
                return Some(&self.files[i]);
            }
            i = i + 1;
        }
        proof {
            assert(self@.files.skip(n as int) =~= Seq::<XP3FileIndexView>::empty());
        }
        None
    }

    /// Inserts a File record into the file list by name, per
    /// [`insert_file_view`]: the new record wins over an old one of the
    /// same name.
    pub fn insert(&mut self, f: XP3FileIndex)
        ensures
            final(self)@.files == insert_file_view(old(self)@.files, f@),
            final(self)@.compression == old(self)@.compression,
            final(self)@.extra == old(self)@.extra,
    {
        insert_file(&mut self.files, f);
    }

    /// Decodes an index set from `pos` in `data`, per [`parse_index_set`].
    /// Returns the bytes consumed and the index set.
    pub fn from_bytes(data: &[u8], pos: usize) -> (r: Result<(u64, Self), XP3Error>)
        ensures
            r matches Ok(v) ==> parse_index_set(data@, pos as int) == Ok::<_, XP3ErrorKind>(
                (v.0 as int, v.1@),
            ),
            r matches Err(e) ==> parse_index_set(data@, pos as int) == Err::<
                (int, XP3IndexSetView),
                _,
            >(e.spec_kind()),
    {
        let n = data.len();
        if pos >= n {
            return Err(XP3Error::new(XP3ErrorKind::Io));
        }
        let flag = match XP3IndexCompression::try_from(data[pos]) {
            Ok(f) => f,
            Err(e) => {
                return Err(e);
            },
        };
        match flag {
            XP3IndexCompression::UnCompressed => {
                if n - pos < 9 {
                    return Err(XP3Error::new(XP3ErrorKind::Io));
                }
                let index_size = read_u64(data, pos + 1);
                if index_size > (n - (pos + 9)) as u64 {
                    return Err(XP3Error::new(XP3ErrorKind::Io));
                }
                let body = slice_subrange(data, pos + 9, pos + 9 + index_size as usize);
                let (extra, files) = match walk_index_records(body, index_size) {
                    Ok(v) => v,
                    Err(e) => {
                        return Err(e);
                    },
                };
                Ok(
                    (
                        9 + index_size,
                        XP3IndexSet {
                            compression: XP3IndexCompression::UnCompressed,
                            extra,
                            files,
                        },
                    ),
                )
            },
            XP3IndexCompression::Compressed => {
                if n - pos < 17 {
                    return Err(XP3Error::new(XP3ErrorKind::Io));
                }
                let compressed_size = read_u64(data, pos + 1);
                let index_size = read_u64(data, pos + 9);
                if compressed_size > (n - (pos + 17)) as u64 {
                    return Err(XP3Error::new(XP3ErrorKind::Io));
                }
                let compressed = slice_subrange(
                    data,
                    pos + 17,
                    pos + 17 + compressed_size as usize,
                );
                let body = match inflate(compressed, index_size) {
                    Ok(b) => b,
                    Err(e) => {
                        return Err(e);
                    },
                };
                let (extra, files) = match walk_index_records(body.as_slice(), index_size) {
                    Ok(v) => v,
                    Err(e) => {
                        return Err(e);
                    },
                };
                Ok(
                    (
                        17 + compressed_size,
                        XP3IndexSet { compression: XP3IndexCompression::Compressed, extra, files },
                    ),
                )
            },
        }
    }

    /// Appends the index set's wire form to `out`: the selector byte, then
    /// the framed body, deflating it first in `Compressed` mode. Returns the
    /// bytes written, or `Io` (writing nothing) when some record cannot be
    /// sized in a `u64`.
    pub fn write_bytes(&self, out: &mut Vec<u8>) -> (r: Result<u64, XP3Error>)
        ensures
            r is Ok <==> index_set_encodable(self@),
            r matches Ok(n) ==> final(out)@ == old(out)@ + index_set_bytes(self@) && n
                == index_set_bytes(self@).len(),
            r matches Err(e) ==> final(out)@ == old(out)@ && e.spec_kind() == XP3ErrorKind::Io,
    {
        let mut body: Vec<u8> = Vec::new();
        let mut i: usize = 0;
        proof {
            assert(extras_view(self.extra@).take(0) =~= Seq::<XP3IndexView>::empty());
        }
        while i < self.extra.len()
            invariant
                i <= self.extra@.len(),
                body@ == extra_list_bytes(self@.extra.take(i as int)),
                forall|j: int| 0 <= j < i ==> extra_encodable(#[trigger] self@.extra[j]),
            decreases self.extra@.len() - i,
        {
            match self.extra[i].write_bytes(&mut body) {
                Ok(_) => {},
                Err(e) => {
                    proof {
                        assert(!extra_encodable(self@.extra[i as int]));
                    }
                    return Err(e);
                },
            }
            proof {
                lemma_extra_list_bytes_push(self@.extra.take(i as int), self@.extra[i as int]);
                assert(self@.extra.take(i as int).push(self@.extra[i as int]) =~= self@.extra.take(
                    i as int + 1,
                ));
            }
            i = i + 1;
        }
        proof {
            assert(self@.extra.take(self.extra@.len() as int) =~= self@.extra);
        }
        let mut i: usize = 0;
        proof {
            assert(self@.files.take(0) =~= Seq::<XP3FileIndexView>::empty());
            assert(body@ =~= extra_list_bytes(self@.extra) + file_list_bytes(self@.files.take(0)));
        }
        while i < self.files.len()
            invariant
                i <= self.files@.len(),
                body@ == extra_list_bytes(self@.extra) + file_list_bytes(
                    self@.files.take(i as int),
                ),
                forall|j: int|
                    0 <= j < self.extra@.len() ==> extra_encodable(#[trigger] self@.extra[j]),
                forall|j: int| 0 <= j < i ==> file_encodable(#[trigger] self@.files[j]),
            decreases self.files@.len() - i,
        {
            let mut file_buf: Vec<u8> = Vec::new();
            match self.files[i].write_bytes(&mut file_buf) {
                Ok(_) => {},
                Err(e) => {
                    proof {
                        assert(!file_encodable(self@.files[i as int]));
                    }
                    return Err(e);
                },
            }
            match (XP3Index { identifier: XP3_INDEX_FILE_IDENTIFIER, data: file_buf }).write_bytes(
                &mut body,
            ) {
                Ok(_) => {},
                Err(e) => {
                    proof {
                        assert(!file_encodable(self@.files[i as int]));
                    }
                    return Err(e);
                },
            }
            proof {
                lemma_file_list_bytes_push(self@.files.take(i as int), self@.files[i as int]);
                assert(self@.files.take(i as int).push(self@.files[i as int]) =~= self@.files.take(
                    i as int + 1,
                ));
                assert(body@ =~= extra_list_bytes(self@.extra) + file_list_bytes(
                    self@.files.take(i as int + 1),
                ));
            }
            i = i + 1;
        }
        proof {
            assert(self@.files.take(self.files@.len() as int) =~= self@.files);
            assert(body@ == index_body_bytes(self@.extra, self@.files));
        }
        let start = out.len();
        out.push(self.compression.value());
        match self.compression {
            XP3IndexCompression::UnCompressed => {
                write_u64(out, body.len() as u64);
                out.extend_from_slice(body.as_slice());
            },
            XP3IndexCompression::Compressed => {
                let compressed = deflate(body.as_slice());
                write_u64(out, compressed.len() as u64);
                write_u64(out, body.len() as u64);
                out.extend_from_slice(compressed.as_slice());
            },
        }
        proof {
            assert(out@ =~= old(out)@ + index_set_bytes(self@));
        }
        Ok((out.len() - start) as u64)
    }
}

/// Inserts a File record into a file list by name: it replaces the first
/// record with its name, or goes to the end.
pub fn insert_file(files: &mut Vec<XP3FileIndex>, f: XP3FileIndex)
    ensures
        files_view(final(files)@) == insert_file_view(files_view(old(files)@), f@),
{
    let mut i: usize = 0;
    let n = files.len();
    while i < n
        invariant
            i <= n,
            n == files@.len(),
            forall|j: int| 0 <= j < i ==> files_view(files@)[j].info.name != f@.info.name,
            files@ == old(files)@,
        decreases n - i,
    {
        if files[i].info.name.eq(&f.info.name) {
            let ghost pre = files_view(files@);
            files.set(i, f);
            proof {
                lemma_insert_file_at(pre, f@, i as int);
                assert(files_view(files@) =~= pre.update(i as int, f@));
            }
            return ;
        }
        i = i + 1;
    }
    let ghost pre = files_view(files@);
    files.push(f);
    proof {
        lemma_insert_file_missing(pre, f@);
        assert(files_view(files@) =~= pre.push(f@));
    }
}

/// When the first record named like `f` sits at `i`, insertion replaces
/// exactly that record.
proof fn lemma_insert_file_at(files: Seq<XP3FileIndexView>, f: XP3FileIndexView, i: int)
    requires
        0 <= i < files.len(),
        files[i].info.name == f.info.name,
        forall|j: int| 0 <= j < i ==> files[j].info.name != f.info.name,
    ensures
        insert_file_view(files, f) == files.update(i, f),
    decreases i,
{
    if i == 0 {
        assert(insert_file_view(files, f) == seq![f] + files.drop_first());
        assert(seq![f] + files.drop_first() =~= files.update(0, f));
    } else {
        lemma_insert_file_at(files.drop_first(), f, i - 1);
        assert(insert_file_view(files, f) == seq![files[0]] + insert_file_view(
            files.drop_first(),
            f,
        ));
        assert(seq![files[0]] + files.drop_first().update(i - 1, f) =~= files.update(i, f));
    }
}

/// When no record is named like `f`, insertion appends it.
proof fn lemma_insert_file_missing(files: Seq<XP3FileIndexView>, f: XP3FileIndexView)
    requires
        forall|j: int| 0 <= j < files.len() ==> files[j].info.name != f.info.name,
    ensures
        insert_file_view(files, f) == files.push(f),
    decreases files.len(),
{
    if files.len() == 0 {
        assert(insert_file_view(files, f) =~= files.push(f));
    } else {
        lemma_insert_file_missing(files.drop_first(), f);
        assert(seq![files[0]] + files.drop_first().push(f) =~= files.push(f));
    }
}

/// Appending an extra record appends its envelope's bytes.
pub proof fn lemma_extra_list_bytes_push(extra: Seq<XP3IndexView>, e: XP3IndexView)
    ensures
        extra_list_bytes(extra.push(e)) == extra_list_bytes(extra) + tlv_bytes(
            e.identifier,
            e.data,
        ),
    decreases extra.len(),
{
    if extra.len() == 0 {
        assert(extra.push(e).drop_first() =~= extra);
        assert(extra.push(e)[0] == e);
        assert(extra_list_bytes(extra) =~= Seq::<u8>::empty());
        assert(extra_list_bytes(extra.push(e)) =~= tlv_bytes(e.identifier, e.data)
            + extra_list_bytes(extra));
        assert(tlv_bytes(e.identifier, e.data) + Seq::<u8>::empty() =~= tlv_bytes(
            e.identifier,
            e.data,
        ));
    } else {
        assert(extra.push(e).drop_first() =~= extra.drop_first().push(e));
        assert(extra.push(e)[0] == extra[0]);
        lemma_extra_list_bytes_push(extra.drop_first(), e);
        assert(extra_list_bytes(extra.push(e)) =~= extra_list_bytes(extra) + tlv_bytes(
            e.identifier,
            e.data,
        ));
    }
}

/// Appending a File record appends its envelope's bytes.
pub proof fn lemma_file_list_bytes_push(files: Seq<XP3FileIndexView>, f: XP3FileIndexView)
    ensures
        file_list_bytes(files.push(f)) == file_list_bytes(files) + tlv_bytes(
            XP3_INDEX_FILE_IDENTIFIER,
            crate::index::file::file_index_bytes(f),
        ),
    decreases files.len(),
{
    let envelope = tlv_bytes(XP3_INDEX_FILE_IDENTIFIER, crate::index::file::file_index_bytes(f));
    if files.len() == 0 {
        assert(files.push(f).drop_first() =~= files);
        assert(files.push(f)[0] == f);
        assert(file_list_bytes(files) =~= Seq::<u8>::empty());
        assert(file_list_bytes(files.push(f)) =~= envelope + file_list_bytes(files));
        assert(envelope + Seq::<u8>::empty() =~= envelope);
    } else {
        assert(files.push(f).drop_first() =~= files.drop_first().push(f));
        assert(files.push(f)[0] == files[0]);
        lemma_file_list_bytes_push(files.drop_first(), f);
        assert(file_list_bytes(files.push(f)) =~= file_list_bytes(files) + envelope);
    }
}

/// Walks the top-level records of an index body, per [`walk_index`]:
/// unrecognized records are gathered in order, File records are decoded and
/// inserted by name.
fn walk_index_records(body: &[u8], end: u64) -> (r: Result<
    (Vec<XP3Index>, Vec<XP3FileIndex>),
    XP3Error,
>)
    ensures
        r matches Ok(v) ==> walk_index(body@, 0, end as int, Seq::empty(), Seq::empty())
            matches Ok(w) && w.1 == extras_view(v.0@) && w.2 == files_view(v.1@),
        r matches Err(e) ==> walk_index(body@, 0, end as int, Seq::empty(), Seq::empty()) == Err::<
            (int, Seq<XP3IndexView>, Seq<XP3FileIndexView>),
            _,
        >(e.spec_kind()),
{
    let n = body.len();
    let mut extra: Vec<XP3Index> = Vec::new();
    let mut files: Vec<XP3FileIndex> = Vec::new();
    let mut pos: usize = 0;
    proof {
        assert(extras_view(extra@) =~= Seq::<XP3IndexView>::empty());
        assert(files_view(files@) =~= Seq::<XP3FileIndexView>::empty());
    }
    while (pos as u64) < end
        invariant
            pos <= n,
            n == body@.len(),
            walk_index(body@, 0, end as int, Seq::empty(), Seq::empty()) == walk_index(
                body@,
                pos as int,
                end as int,
                extras_view(extra@),
                files_view(files@),
            ),
        decreases n - pos,
    {
        let (consumed, record) = match XP3Index::from_bytes(body, pos) {
            Ok(v) => v,
            Err(e) => {
                return Err(e);
            },
        };
        if record.identifier == XP3_INDEX_FILE_IDENTIFIER {
            let payload_len = record.data.len();
            let file = match crate::index::file::XP3FileIndex::from_bytes(
                payload_len as u64,
                record.data.as_slice(),
            ) {
                Ok((_, f)) => f,
                Err(e) => {
                    return Err(e);
                },
            };
            insert_file(&mut files, file);
        } else {
            let ghost pre = extras_view(extra@);
            let ghost rec = record@;
            extra.push(record);
            proof {
                assert(extras_view(extra@) =~= pre.push(rec));
            }
        }
        pos = pos + consumed as usize;
    }
    Ok((extra, files))
}

/// Walking the extras' bytes gathers exactly the extras, in order, and
/// leaves the file list alone.
proof fn lemma_walk_extras(
    s: Seq<u8>,
    pos: int,
    end: int,
    extra: Seq<XP3IndexView>,
    tail: Seq<u8>,
    acc_extra: Seq<XP3IndexView>,
    acc_files: Seq<XP3FileIndexView>,
)
    requires
        0 <= pos <= end,
        end <= s.len(),
        s.subrange(pos, end) == extra_list_bytes(extra) + tail,
        forall|i: int|
            0 <= i < extra.len() ==> (#[trigger] extra[i]).identifier != XP3_INDEX_FILE_IDENTIFIER
                && extra_encodable(extra[i]),
    ensures
        walk_index(s, pos, end, acc_extra, acc_files) == walk_index(
            s,
            pos + extra_list_bytes(extra).len(),
            end,
            acc_extra + extra,
            acc_files,
        ),
    decreases extra.len(),
{
    if extra.len() == 0 {
        assert(acc_extra + extra =~= acc_extra);
    } else {
        let e = extra[0];
        let env = tlv_bytes(e.identifier, e.data);
        let rest = extra_list_bytes(extra.drop_first());
        assert(extra_list_bytes(extra) == env + rest);
        assert(env.len() == 12 + e.data.len()) by {
            crate::le::lemma_le32_round_trip();
            crate::le::lemma_le64_round_trip();
        }
        let seg = s.subrange(pos, end);
        assert(seg.len() == end - pos);
        assert(pos < end);
        let pos2 = pos + env.len() as int;
        assert(s.subrange(pos, pos2) =~= seg.subrange(0, env.len() as int));
        assert(seg.subrange(0, env.len() as int) =~= env);
        lemma_parse_tlv_at(s, pos, e.identifier, e.data);
        assert(walk_index(s, pos, end, acc_extra, acc_files) == walk_index(
            s,
            pos2,
            end,
            acc_extra.push(e),
            acc_files,
        ));
        assert(s.subrange(pos2, end) =~= seg.subrange(env.len() as int, seg.len() as int));
        assert(seg.subrange(env.len() as int, seg.len() as int) =~= rest + tail);
        lemma_walk_extras(s, pos2, end, extra.drop_first(), tail, acc_extra.push(e), acc_files);
        assert(acc_extra.push(e) + extra.drop_first() =~= acc_extra + extra);
    }
}

/// Walking the File records' bytes inserts exactly those records, in order;
/// with fresh, pairwise distinct names each insertion appends.
proof fn lemma_walk_files(
    s: Seq<u8>,
    pos: int,
    end: int,
    files: Seq<XP3FileIndexView>,
    acc_extra: Seq<XP3IndexView>,
    acc_files: Seq<XP3FileIndexView>,
)
    requires
        0 <= pos <= end,
        end <= s.len(),
        s.subrange(pos, end) == file_list_bytes(files),
        forall|i: int|
            0 <= i < files.len() ==> file_encodable(#[trigger] files[i])
                && crate::index::file::name_survives_utf16(files[i].info.name),
        names_unique(files),
        forall|i: int, j: int|
            0 <= i < acc_files.len() && 0 <= j < files.len() ==> acc_files[i].info.name
                != files[j].info.name,
    ensures
        walk_index(s, pos, end, acc_extra, acc_files) == Ok::<_, XP3ErrorKind>(
            (end, acc_extra, acc_files + files),
        ),
    decreases files.len(),
{
    if files.len() == 0 {
        assert(s.subrange(pos, end).len() == 0);
        assert(pos == end);
        assert(acc_files + files =~= acc_files);
    } else {
        let f = files[0];
        let payload = crate::index::file::file_index_bytes(f);
        let env = tlv_bytes(XP3_INDEX_FILE_IDENTIFIER, payload);
        let rest = file_list_bytes(files.drop_first());
        assert(file_list_bytes(files) == env + rest);
        assert(env.len() == 12 + payload.len()) by {
            crate::le::lemma_le32_round_trip();
            crate::le::lemma_le64_round_trip();
        }
        let seg = s.subrange(pos, end);
        assert(seg.len() == end - pos);
        assert(pos < end);
        let pos2 = pos + env.len() as int;
        assert(s.subrange(pos, pos2) =~= seg.subrange(0, env.len() as int));
        assert(seg.subrange(0, env.len() as int) =~= env);
        lemma_parse_tlv_at(s, pos, XP3_INDEX_FILE_IDENTIFIER, payload);
        crate::index::file::lemma_file_index_round_trip(f);
        lemma_insert_file_missing(acc_files, f);
        assert(walk_index(s, pos, end, acc_extra, acc_files) == walk_index(
            s,
            pos2,
            end,
            acc_extra,
            acc_files.push(f),
        ));
        assert(s.subrange(pos2, end) =~= seg.subrange(env.len() as int, seg.len() as int));
        assert(seg.subrange(env.len() as int, seg.len() as int) =~= rest);
        assert(forall|i: int, j: int|
            0 <= i < acc_files.push(f).len() && 0 <= j < files.drop_first().len() ==> acc_files.push(
                f,
            )[i].info.name != files.drop_first()[j].info.name);
        lemma_walk_files(s, pos2, end, files.drop_first(), acc_extra, acc_files.push(f));
        assert(acc_files.push(f) + files.drop_first() =~= acc_files + files);
    }
}

/// Walking an index body built from extras and files gathers them back
/// exactly: the extras in order, the files appended in order.
pub proof fn lemma_index_body_round_trip(extra: Seq<XP3IndexView>, files: Seq<XP3FileIndexView>)
    requires
        forall|i: int|
            0 <= i < extra.len() ==> (#[trigger] extra[i]).identifier != XP3_INDEX_FILE_IDENTIFIER
                && extra_encodable(extra[i]),
        forall|i: int|
            0 <= i < files.len() ==> file_encodable(#[trigger] files[i])
                && crate::index::file::name_survives_utf16(files[i].info.name),
        names_unique(files),
    ensures
        walk_index(
            index_body_bytes(extra, files),
            0,
            index_body_bytes(extra, files).len() as int,
            Seq::empty(),
            Seq::empty(),
        ) == Ok::<_, XP3ErrorKind>((index_body_bytes(extra, files).len() as int, extra, files)),
{
    let body = index_body_bytes(extra, files);
    let end = body.len() as int;
    assert(body.subrange(0, end) =~= extra_list_bytes(extra) + file_list_bytes(files));
    lemma_walk_extras(body, 0, end, extra, file_list_bytes(files), Seq::empty(), Seq::empty());
    let pos2 = extra_list_bytes(extra).len() as int;
    assert(body.subrange(pos2, end) =~= file_list_bytes(files));
    lemma_walk_files(body, pos2, end, files, Seq::<XP3IndexView>::empty() + extra, Seq::empty());
    assert(Seq::<XP3IndexView>::empty() + extra =~= extra);
    assert(Seq::<XP3FileIndexView>::empty() + files =~= files);
}

/// Decoding at a position whose bytes hold an index set's wire form gives
/// the index set back.
///
/// The extras must not wear the File identifier (they would decode as
/// files), the file names must survive their UTF-16 form and be pairwise
/// distinct, every record and the body itself must be sizable in a `u64`,
/// and — in `Compressed` mode — decompressing the deflated body must give
/// the body back, which [`crate::zlib::deflate`] guarantees of every stream
/// it produces.
pub proof fn lemma_index_set_round_trip(s: Seq<u8>, pos: int, v: XP3IndexSetView)
    requires
        0 <= pos,
        pos + index_set_bytes(v).len() <= s.len(),
        s.subrange(pos, pos + index_set_bytes(v).len()) == index_set_bytes(v),
        forall|i: int|
            0 <= i < v.extra.len() ==> (#[trigger] v.extra[i]).identifier
                != XP3_INDEX_FILE_IDENTIFIER && extra_encodable(v.extra[i]),
        forall|i: int|
            0 <= i < v.files.len() ==> file_encodable(#[trigger] v.files[i])
                && crate::index::file::name_survives_utf16(v.files[i].info.name),
        names_unique(v.files),
        index_body_bytes(v.extra, v.files).len() <= u64::MAX,
        v.compression is Compressed ==> deflate_of(index_body_bytes(v.extra, v.files)).len()
            <= u64::MAX && inflate_prefix(
            deflate_of(index_body_bytes(v.extra, v.files)),
            index_body_bytes(v.extra, v.files).len() as int,
        ) == Some(index_body_bytes(v.extra, v.files)),
    ensures
        parse_index_set(s, pos) == Ok::<_, XP3ErrorKind>((index_set_bytes(v).len() as int, v)),
{
    crate::le::lemma_le64_round_trip();
    let body = index_body_bytes(v.extra, v.files);
    let isb = index_set_bytes(v);
    let whole = s.subrange(pos, pos + isb.len() as int);
    lemma_index_body_round_trip(v.extra, v.files);
    assert(s[pos] == whole[0]);
    match v.compression {
        XP3IndexCompression::UnCompressed => {
            assert(whole[0] == 0u8);
            assert(s.subrange(pos + 1, pos + 9) =~= whole.subrange(1, 9));
            assert(whole.subrange(1, 9) =~= le64_bytes(body.len() as u64));
            crate::le::lemma_le64_at_of_bytes(s, pos + 1, body.len() as u64);
            assert(s.subrange(pos + 9, pos + 9 + body.len() as int) =~= whole.subrange(
                9,
                9 + body.len() as int,
            ));
            assert(whole.subrange(9, 9 + body.len() as int) =~= body);
        },
        XP3IndexCompression::Compressed => {
            let packed = deflate_of(body);
            assert(whole[0] == 1u8);
            assert(s.subrange(pos + 1, pos + 9) =~= whole.subrange(1, 9));
            assert(whole.subrange(1, 9) =~= le64_bytes(packed.len() as u64));
            crate::le::lemma_le64_at_of_bytes(s, pos + 1, packed.len() as u64);
            assert(s.subrange(pos + 9, pos + 17) =~= whole.subrange(9, 17));
            assert(whole.subrange(9, 17) =~= le64_bytes(body.len() as u64));
            crate::le::lemma_le64_at_of_bytes(s, pos + 9, body.len() as u64);
            assert(s.subrange(pos + 17, pos + 17 + packed.len() as int) =~= whole.subrange(
                17,
                17 + packed.len() as int,
            ));
            assert(whole.subrange(17, 17 + packed.len() as int) =~= packed);
        },
    }
}

/// Map-style insertion keeps names unique and can only add `f`'s name.
proof fn lemma_insert_file_wf(files: Seq<XP3FileIndexView>, f: XP3FileIndexView)
    requires
        names_unique(files),
    ensures
        names_unique(insert_file_view(files, f)),
        forall|k: int|
            0 <= k < insert_file_view(files, f).len() ==> (#[trigger] insert_file_view(
                files,
                f,
            )[k]).info.name == f.info.name || (exists|j: int|
                0 <= j < files.len() && files[j].info.name == insert_file_view(
                    files,
                    f,
                )[k].info.name),
    decreases files.len(),
{
    let out = insert_file_view(files, f);
    if files.len() == 0 {
    } else if files[0].info.name == f.info.name {
        assert(forall|j: int|
            0 <= j < files.drop_first().len() ==> files.drop_first()[j] == files[j + 1]);
    } else {
        lemma_insert_file_wf(files.drop_first(), f);
        let rest = insert_file_view(files.drop_first(), f);
        assert(out[0] == files[0]);
        assert(forall|k: int| 0 <= k < rest.len() ==> out[k + 1] == rest[k]);
        assert forall|i: int, j: int| 0 <= i < j < out.len() implies out[i].info.name
            != out[j].info.name by {
            if i == 0 {
                assert(out[j] == rest[j - 1]);
                if rest[j - 1].info.name == f.info.name {
                } else {
                    let w = choose|w: int|
                        0 <= w < files.drop_first().len() && files.drop_first()[w].info.name
                            == rest[j - 1].info.name;
                    assert(files[w + 1].info.name == rest[j - 1].info.name);
                }
            } else {
                assert(out[i] == rest[i - 1] && out[j] == rest[j - 1]);
            }
        }
    }
}

/// Whatever an index walk gathers is well formed: no extra wears the File
/// identifier, and no two files share a name.
pub proof fn lemma_walk_index_wf(
    s: Seq<u8>,
    pos: int,
    end: int,
    extra: Seq<XP3IndexView>,
    files: Seq<XP3FileIndexView>,
)
    requires
        forall|i: int|
            0 <= i < extra.len() ==> (#[trigger] extra[i]).identifier
                != XP3_INDEX_FILE_IDENTIFIER,
        names_unique(files),
        walk_index(s, pos, end, extra, files) is Ok,
    ensures
        (walk_index(s, pos, end, extra, files) matches Ok(w) ==> (forall|i: int|
            0 <= i < w.1.len() ==> (#[trigger] w.1[i]).identifier != XP3_INDEX_FILE_IDENTIFIER)
            && names_unique(w.2)),
    decreases s.len() - pos,
{
    if pos >= end {
    } else {
        match parse_tlv(s, pos) {
            Err(_) => {},
            Ok((consumed, identifier, payload)) => {
                match apply_record(extra, files, identifier, payload) {
                    Err(_) => {},
                    Ok((extra2, files2)) => {
                        if identifier == XP3_INDEX_FILE_IDENTIFIER {
                            let f = parse_file_index(payload, payload.len() as int)->Ok_0;
                            lemma_insert_file_wf(files, f);
                        } else {
                            assert(forall|i: int|
                                0 <= i < extra2.len() ==> (#[trigger] extra2[i]).identifier
                                    != XP3_INDEX_FILE_IDENTIFIER);
                        }
                        lemma_walk_index_wf(s, pos + consumed, end, extra2, files2);
                    },
                }
            },
        }
    }
}

} // verus!
