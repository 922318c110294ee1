//! The tag-length-value record: the unit every index structure is built
//! from, both at the top level of the index body and inside File records.

use crate::le::{
    le32_at, le32_bytes, le64_at, le64_bytes, lemma_le32_at_of_bytes, lemma_le64_at_of_bytes,
    read_u32, read_u64, write_u32, write_u64,
};
use crate::{XP3Error, XP3ErrorKind};
use vstd::prelude::*;
use vstd::slice::{slice_subrange, slice_to_vec};

pub mod file;

verus! {

/// The abstract value of a tag-length-value record.
pub ghost struct XP3IndexView {
    /// The record's four-byte identifier.
    pub identifier: u32,
    /// The record's payload.
    pub data: Seq<u8>,
}

/// The wire form of a tag-length-value record: identifier, payload length as
/// a `u64`, then the payload itself.
pub open spec fn tlv_bytes(identifier: u32, data: Seq<u8>) -> Seq<u8> {
    le32_bytes(identifier) + le64_bytes(data.len() as u64) + data
}

/// What decoding a tag-length-value record at `pos` in `s` yields: bytes
/// consumed (12 plus the payload length), identifier and payload, or `Io`
/// when the buffer ends before the declared payload does.
pub open spec fn parse_tlv(s: Seq<u8>, pos: int) -> Result<
    (int, u32, Seq<u8>),
    XP3ErrorKind,
> {
    if pos + 12 > s.len() {
        Err(XP3ErrorKind::Io)
    } else {
        let len = le64_at(s, pos + 4) as int;
        if pos + 12 + len > s.len() {
            Err(XP3ErrorKind::Io)
        } else {
            Ok((12 + len, le32_at(s, pos), s.subrange(pos + 12, pos + 12 + len)))
        }
    }
}

/// A general XP3 index record: an identifier and its raw payload.
#[derive(Debug, Clone)]
pub struct XP3Index {
    /// The record's four-byte identifier.
    pub identifier: u32,
    /// The record's payload.
    pub data: Vec<u8>,
}

impl View for XP3Index {
    type V = XP3IndexView;

    open spec fn view(&self) -> XP3IndexView {
        XP3IndexView { identifier: self.identifier, data: self.data@ }
    }
}

impl XP3Index {
    /// Makes a record from an identifier and its payload.
    pub fn new(identifier: u32, data: Vec<u8>) -> (r: Self)
        ensures
            r@.identifier == identifier,
            r@.data == data@,
    {
        XP3Index { identifier, data }
    }

    /// The record's identifier.
    pub fn identifier(&self) -> (r: u32)
        ensures
            r == self@.identifier,
    {
        self.identifier
    }

    /// Replaces the record's identifier.
    pub fn set_identifier(&mut self, identifier: u32)
        ensures
            final(self)@.identifier == identifier,
            final(self)@.data == old(self)@.data,
    {
        self.identifier = identifier;
    }

    /// The record's payload.
    pub fn data(&self) -> (r: &Vec<u8>)
        ensures
            r@ == self@.data,
    {
        &self.data
    }

    /// The record's payload, for in-place editing.
    pub fn data_mut(&mut self) -> (r: &mut Vec<u8>)
        ensures
            r@ == old(self)@.data,
            final(self)@.data == final(r)@,
            final(self)@.identifier == old(self)@.identifier,
    {
        &mut self.data
    }

    /// Decodes a record from `pos` in `data`, per [`parse_tlv`].
    /// Returns the bytes consumed and the record.
    pub fn from_bytes(data: &[u8], pos: usize) -> (r: Result<(u64, Self), XP3Error>)
        ensures
            r matches Ok(v) ==> parse_tlv(data@, pos as int) == Ok::<_, XP3ErrorKind>(
                (v.0 as int, v.1@.identifier, v.1@.data),
            ),
            r matches Err(e) ==> parse_tlv(data@, pos as int) == Err::<(int, u32, Seq<u8>), _>(
                e.spec_kind(),
            ),
    {
        let n = data.len();
        if pos >= n || n - pos < 12 {
            return Err(XP3Error::new(XP3ErrorKind::Io));
        }
        let identifier = read_u32(data, pos);
        let size = read_u64(data, pos + 4);
        if size > (n - (pos + 12)) as u64 {
            return Err(XP3Error::new(XP3ErrorKind::Io));
        }
        let payload = slice_to_vec(slice_subrange(data, pos + 12, pos + 12 + size as usize));
        Ok((12 + size, XP3Index { identifier, data: payload }))
    }

    /// Appends the record's wire form to `out`. Returns the bytes written,
    /// or `Io` (writing nothing) for a payload whose 12-byte envelope cannot
    /// be sized in a `u64`.
    pub fn write_bytes(&self, out: &mut Vec<u8>) -> (r: Result<u64, XP3Error>)
        ensures
            r is Ok <==> self@.data.len() + 12 <= u64::MAX,
            r matches Ok(n) ==> final(out)@ == old(out)@ + tlv_bytes(self@.identifier, self@.data)
                && n == 12 + self@.data.len(),
            r matches Err(e) ==> final(out)@ == old(out)@ && e.spec_kind() == XP3ErrorKind::Io,
    {
        if self.data.len() as u64 > u64::MAX - 12 {
            return Err(XP3Error::new(XP3ErrorKind::Io));
        }
        write_u32(out, self.identifier);
        write_u64(out, self.data.len() as u64);
        out.extend_from_slice(self.data.as_slice());
        proof {
            assert(out@ =~= old(out)@ + tlv_bytes(self@.identifier, self@.data));
            crate::le::lemma_le32_round_trip();
            crate::le::lemma_le64_round_trip();
        }
        Ok(12 + self.data.len() as u64)
    }
}

/// Decoding at a position whose bytes hold a record's wire form gives that
/// record back.
pub proof fn lemma_parse_tlv_at(s: Seq<u8>, pos: int, identifier: u32, data: Seq<u8>)
    requires
        0 <= pos,
        data.len() < 0x10000000000000000,
        pos + 12 + data.len() <= s.len(),
        s.subrange(pos, pos + 12 + data.len()) == tlv_bytes(identifier, data),
    ensures
        parse_tlv(s, pos) == Ok::<_, XP3ErrorKind>((12 + data.len() as int, identifier, data)),
{
    crate::le::lemma_le32_round_trip();
    crate::le::lemma_le64_round_trip();
    let whole = s.subrange(pos, pos + 12 + data.len());
    assert(s.subrange(pos, pos + 4) =~= whole.subrange(0, 4));
    assert(whole.subrange(0, 4) =~= le32_bytes(identifier));
    lemma_le32_at_of_bytes(s, pos, identifier);
    assert(s.subrange(pos + 4, pos + 12) =~= whole.subrange(4, 12));
    assert(whole.subrange(4, 12) =~= le64_bytes(data.len() as u64));
    lemma_le64_at_of_bytes(s, pos + 4, data.len() as u64);
    assert(le64_at(s, pos + 4) == data.len() as u64);
    assert(whole.subrange(12, 12 + data.len() as int) =~= data);
    assert(s.subrange(pos + 12, pos + 12 + data.len()) =~= whole.subrange(
        12,
        12 + data.len() as int,
    ));
}

} // verus!
