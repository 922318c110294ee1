//! An opened archive: the decoded container plus the archive bytes, read on
//! demand when an entry is unpacked.

use crate::index::file::{XP3FileIndex, XP3FileIndexSegment};
use crate::index_set::{files_view, find_file};
use crate::reader::{segment_output, XP3Reader};
use crate::{VirtualXP3, XP3Error, XP3ErrorKind};
use vstd::prelude::*;

verus! {

/// What unpacking a file's segments out of the archive bytes yields: each
/// segment's output, concatenated in index order; nothing when any segment
/// fails.
pub open spec fn unpacked_bytes(data: Seq<u8>, segs: Seq<XP3FileIndexSegment>) -> Option<Seq<u8>>
    decreases segs.len(),
{
    if segs.len() == 0 {
        Some(Seq::empty())
    } else {
        match segment_output(data, segs[0]) {
            None => None,
            Some(head) => match unpacked_bytes(data, segs.drop_first()) {
                None => None,
                Some(rest) => Some(head + rest),
            },
        }
    }
}

/// An XP3 archive: its decoded container and its bytes.
#[derive(Debug)]
pub struct XP3Archive {
    container: VirtualXP3,
    data: Vec<u8>,
}

impl XP3Archive {
    /// The decoded container, for contracts.
    pub closed spec fn spec_container(&self) -> VirtualXP3 {
        self.container
    }

    /// The archive bytes, for contracts.
    pub closed spec fn spec_data(&self) -> Seq<u8> {
        self.data@
    }

    /// Pairs a decoded container with the bytes it was decoded from.
    pub fn new(container: VirtualXP3, data: Vec<u8>) -> (r: Self)
        ensures
            r.spec_container() == container,
            r.spec_data() == data@,
    {
        XP3Archive { container, data }
    }

    /// The decoded container.
    pub fn container(&self) -> (r: &VirtualXP3)
        ensures
            r == self.spec_container(),
    {
        &self.container
    }

    /// The File records of the archive, in the file list's order.
    pub fn entries(&self) -> (r: &Vec<XP3FileIndex>)
        ensures
            files_view(r@) == self.spec_container()@.index_set.files,
    {
        self.container.index_set().entries()
    }

    /// Unpacks the entry named `name` and appends its bytes to `out`:
    /// `FileNotFound` for an absent name, `Io` (leaving `out` alone) when a
    /// segment reaches outside the archive or does not decompress.
    pub fn unpack(&self, name: &String, out: &mut Vec<u8>) -> (r: Result<(), XP3Error>)
        ensures
            (r matches Err(e) && e.spec_kind() == XP3ErrorKind::FileNotFound) <==> find_file(
                self.spec_container()@.index_set.files,
                name@,
            ) is None,
            r is Ok <==> (find_file(self.spec_container()@.index_set.files, name@) matches Some(f)
                && unpacked_bytes(self.spec_data(), f.segments) is Some),
            r is Ok ==> final(out)@ == old(out)@ + unpacked_bytes(
                self.spec_data(),
                find_file(self.spec_container()@.index_set.files, name@)->0.segments,
            )->0,
            r is Err ==> final(out)@ == old(out)@,
            r matches Err(e) ==> e.spec_kind() == XP3ErrorKind::FileNotFound || e.spec_kind()
                == XP3ErrorKind::Io,
    {
        let item = match self.container.index_set().get(name) {
            Some(v) => v,
            None => {
                return Err(XP3Error::new(XP3ErrorKind::FileNotFound));
            },
        };
        let ghost segs = item@.segments;
        let mut unpacked: Vec<u8> = Vec::new();
        let mut i: usize = 0;
        let n = item.segments.len();
        proof {
            assert(segs.skip(0) =~= segs);
            if unpacked_bytes(self.spec_data(), segs) is Some {
                assert(unpacked@ + unpacked_bytes(self.spec_data(), segs)->0 =~= unpacked_bytes(
                    self.spec_data(),
                    segs,
                )->0);
            }
        }
        while i < n
            invariant
                i <= n,
                n == segs.len(),
                segs == item@.segments,
                self.spec_data() == self.data@,
                find_file(self.spec_container()@.index_set.files, name@) == Some(item@),
                unpacked_bytes(self.spec_data(), segs) == (match unpacked_bytes(
                    self.spec_data(),
                    segs.skip(i as int),
                ) {
                    Some(rest) => Some(unpacked@ + rest),
                    None => None::<Seq<u8>>,
                }),
            decreases n - i,
        {
            proof {
                assert(segs.skip(i as int)[0] == segs[i as int]);
                assert(segs.skip(i as int).drop_first() =~= segs.skip(i as int + 1));
            }
            let ghost pre = unpacked@;
            let seg = item.segments[i];
            match XP3Reader::read_segment(&seg, self.data.as_slice(), &mut unpacked) {
                Ok(_) => {},
                Err(e) => {
                    return Err(e);
                },
            }
            proof {
                let head = segment_output(self.spec_data(), segs[i as int])->0;
                if unpacked_bytes(self.spec_data(), segs.skip(i as int + 1)) is Some {
                    let rest = unpacked_bytes(self.spec_data(), segs.skip(i as int + 1))->0;
                    assert((pre + head) + rest =~= pre + (head + rest));
                }
            }
            i = i + 1;
        }
        proof {
            assert(segs.skip(n as int) =~= Seq::<XP3FileIndexSegment>::empty());
            assert(unpacked@ + Seq::<u8>::empty() =~= unpacked@);
        }
        out.extend_from_slice(unpacked.as_slice());
        Ok(())
    }

    /// Closes the archive, handing back the container and the bytes.
    pub fn close(self) -> (r: (VirtualXP3, Vec<u8>))
        ensures
            r.0 == self.spec_container(),
            r.1@ == self.spec_data(),
    {
        (self.container, self.data)
    }
}

/// A file stored as two segments unpacks to the exact concatenation of
/// their outputs, in index order — whatever mix of raw and deflated
/// segments it uses.
pub proof fn lemma_two_segment_unpack(
    data: Seq<u8>,
    first: XP3FileIndexSegment,
    second: XP3FileIndexSegment,
    first_bytes: Seq<u8>,
    second_bytes: Seq<u8>,
)
    requires
        segment_output(data, first) == Some(first_bytes),
        segment_output(data, second) == Some(second_bytes),
    ensures
        unpacked_bytes(data, seq![first, second]) == Some(first_bytes + second_bytes),
{
    let segs = seq![first, second];
    assert(segs.drop_first() =~= seq![second]);
    assert(seq![second].drop_first() =~= Seq::<XP3FileIndexSegment>::empty());
    assert(seq![second][0] == second);
    assert(unpacked_bytes(data, Seq::<XP3FileIndexSegment>::empty()) == Some(
        Seq::<u8>::empty(),
    ));
    assert(unpacked_bytes(data, seq![second]) == Some(second_bytes + Seq::<u8>::empty()));
    assert(segs[0] == first);
    assert(first_bytes + (second_bytes + Seq::<u8>::empty()) =~= first_bytes + second_bytes);
}

} // verus!
