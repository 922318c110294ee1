//! Little-endian primitives: fixed-width integers read from and written to
//! byte buffers, the foundation of every record codec in this crate.

use vstd::bytes::{
    spec_u16_from_le_bytes, spec_u16_to_le_bytes, spec_u32_from_le_bytes, spec_u32_to_le_bytes,
    spec_u64_from_le_bytes, spec_u64_to_le_bytes, u16_to_le_bytes, u32_from_le_bytes,
    u32_to_le_bytes, u64_from_le_bytes, u64_to_le_bytes,
};
use vstd::prelude::*;
use vstd::slice::slice_subrange;

verus! {

/// The `u16` stored at `pos` in `s`, least significant byte first.
pub open spec fn le16_at(s: Seq<u8>, pos: int) -> u16 {
    vstd::bytes::spec_u16_from_le_bytes(s.subrange(pos, pos + 2))
}

/// The `u32` stored at `pos` in `s`, least significant byte first.
pub open spec fn le32_at(s: Seq<u8>, pos: int) -> u32 {
    spec_u32_from_le_bytes(s.subrange(pos, pos + 4))
}

/// The `u64` stored at `pos` in `s`, least significant byte first.
pub open spec fn le64_at(s: Seq<u8>, pos: int) -> u64 {
    spec_u64_from_le_bytes(s.subrange(pos, pos + 8))
}

/// The two little-endian bytes of a `u16`.
pub open spec fn le16_bytes(v: u16) -> Seq<u8> {
    spec_u16_to_le_bytes(v)
}

/// The four little-endian bytes of a `u32`.
pub open spec fn le32_bytes(v: u32) -> Seq<u8> {
    spec_u32_to_le_bytes(v)
}

/// The eight little-endian bytes of a `u64`.
pub open spec fn le64_bytes(v: u64) -> Seq<u8> {
    spec_u64_to_le_bytes(v)
}

/// Reading two bytes after writing a `u16` gives the value back, and the
/// written form is the only two-byte form that reads back as that value.
pub proof fn lemma_le16_round_trip()
    ensures
        forall|v: u16| (#[trigger] le16_bytes(v)).len() == 2,
        forall|v: u16| le16_at(#[trigger] le16_bytes(v), 0) == v,
        forall|s: Seq<u8>| s.len() == 2 ==> le16_bytes(#[trigger] le16_at(s, 0)) == s,
{
    vstd::bytes::lemma_auto_spec_u16_to_from_le_bytes();
    assert forall|v: u16| le16_at(#[trigger] le16_bytes(v), 0) == v by {
        assert(le16_bytes(v).subrange(0, 2) =~= le16_bytes(v));
    }
    assert forall|s: Seq<u8>| s.len() == 2 implies le16_bytes(#[trigger] le16_at(s, 0)) == s by {
        assert(s.subrange(0, 2) =~= s);
    }
}

/// Reading four bytes after writing a `u32` gives the value back, and the
/// written form is the only four-byte form that reads back as that value.
pub proof fn lemma_le32_round_trip()
    ensures
        forall|v: u32| (#[trigger] le32_bytes(v)).len() == 4,
        forall|v: u32| le32_at(#[trigger] le32_bytes(v), 0) == v,
        forall|s: Seq<u8>| s.len() == 4 ==> le32_bytes(#[trigger] le32_at(s, 0)) == s,
{
    vstd::bytes::lemma_auto_spec_u32_to_from_le_bytes();
    assert forall|v: u32| le32_at(#[trigger] le32_bytes(v), 0) == v by {
        assert(le32_bytes(v).subrange(0, 4) =~= le32_bytes(v));
    }
    assert forall|s: Seq<u8>| s.len() == 4 implies le32_bytes(#[trigger] le32_at(s, 0)) == s by {
        assert(s.subrange(0, 4) =~= s);
    }
}

/// Reading eight bytes after writing a `u64` gives the value back, and the
/// written form is the only eight-byte form that reads back as that value.
pub proof fn lemma_le64_round_trip()
    ensures
        forall|v: u64| (#[trigger] le64_bytes(v)).len() == 8,
        forall|v: u64| le64_at(#[trigger] le64_bytes(v), 0) == v,
        forall|s: Seq<u8>| s.len() == 8 ==> le64_bytes(#[trigger] le64_at(s, 0)) == s,
{
    vstd::bytes::lemma_auto_spec_u64_to_from_le_bytes();
    assert forall|v: u64| le64_at(#[trigger] le64_bytes(v), 0) == v by {
        assert(le64_bytes(v).subrange(0, 8) =~= le64_bytes(v));
    }
    assert forall|s: Seq<u8>| s.len() == 8 implies le64_bytes(#[trigger] le64_at(s, 0)) == s by {
        assert(s.subrange(0, 8) =~= s);
    }
}

/// Reading at `pos` recovers the value whose bytes sit at `pos .. pos + 2`.
pub proof fn lemma_le16_at_of_bytes(s: Seq<u8>, pos: int, v: u16)
    requires
        0 <= pos,
        pos + 2 <= s.len(),
        s.subrange(pos, pos + 2) == le16_bytes(v),
    ensures
        le16_at(s, pos) == v,
{
    vstd::bytes::lemma_auto_spec_u16_to_from_le_bytes();
    assert(spec_u16_to_le_bytes(v).len() == 2);
    assert(spec_u16_from_le_bytes(spec_u16_to_le_bytes(v)) == v);
}

/// Reading at `pos` recovers the value whose bytes sit at `pos .. pos + 4`.
pub proof fn lemma_le32_at_of_bytes(s: Seq<u8>, pos: int, v: u32)
    requires
        0 <= pos,
        pos + 4 <= s.len(),
        s.subrange(pos, pos + 4) == le32_bytes(v),
    ensures
        le32_at(s, pos) == v,
{
    vstd::bytes::lemma_auto_spec_u32_to_from_le_bytes();
    assert(spec_u32_to_le_bytes(v).len() == 4);
    assert(spec_u32_from_le_bytes(spec_u32_to_le_bytes(v)) == v);
}

/// Reading at `pos` recovers the value whose bytes sit at `pos .. pos + 8`.
pub proof fn lemma_le64_at_of_bytes(s: Seq<u8>, pos: int, v: u64)
    requires
        0 <= pos,
        pos + 8 <= s.len(),
        s.subrange(pos, pos + 8) == le64_bytes(v),
    ensures
        le64_at(s, pos) == v,
{
    vstd::bytes::lemma_auto_spec_u64_to_from_le_bytes();
    assert(spec_u64_to_le_bytes(v).len() == 8);
    assert(spec_u64_from_le_bytes(spec_u64_to_le_bytes(v)) == v);
}

/// Reads the `u16` stored at `pos` in `data`.
pub fn read_u16(data: &[u8], pos: usize) -> (r: u16)
    requires
        pos + 2 <= data@.len(),
    ensures
        r == le16_at(data@, pos as int),
{
    let n = data.len();
    let s = slice_subrange(data, pos, pos + 2);
    vstd::bytes::u16_from_le_bytes(s)
}

/// Reads the `u32` stored at `pos` in `data`.
pub fn read_u32(data: &[u8], pos: usize) -> (r: u32)
    requires
        pos + 4 <= data@.len(),
    ensures
        r == le32_at(data@, pos as int),
{
    let n = data.len();
    let s = slice_subrange(data, pos, pos + 4);
    u32_from_le_bytes(s)
}

/// Reads the `u64` stored at `pos` in `data`.
pub fn read_u64(data: &[u8], pos: usize) -> (r: u64)
    requires
        pos + 8 <= data@.len(),
    ensures
        r == le64_at(data@, pos as int),
{
    let n = data.len();
    let s = slice_subrange(data, pos, pos + 8);
    u64_from_le_bytes(s)
}

/// Appends the two little-endian bytes of `v` to `out`.
pub fn write_u16(out: &mut Vec<u8>, v: u16)
    ensures
        final(out)@ == old(out)@ + le16_bytes(v),
{
    let mut b = u16_to_le_bytes(v);
    out.append(&mut b);
}

/// Appends the four little-endian bytes of `v` to `out`.
pub fn write_u32(out: &mut Vec<u8>, v: u32)
    ensures
        final(out)@ == old(out)@ + le32_bytes(v),
{
    let mut b = u32_to_le_bytes(v);
    out.append(&mut b);
}

/// Appends the eight little-endian bytes of `v` to `out`.
pub fn write_u64(out: &mut Vec<u8>, v: u64)
    ensures
        final(out)@ == old(out)@ + le64_bytes(v),
{
    let mut b = u64_to_le_bytes(v);
    out.append(&mut b);
}

} // verus!
