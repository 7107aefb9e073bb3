//! Buffer of outgoing stream data that has not yet been acknowledged.
use std::collections::VecDeque;
use vstd::prelude::*;

use crate::range_set::RangeSet;

verus! {

/// Total length of a sequence of segments
pub open spec fn spec_total_len(s: Seq<Vec<u8>>) -> int
    decreases s.len(),
{
    if s.len() == 0 {
        0
    } else {
        spec_total_len(s.drop_last()) + s.last()@.len()
    }
}

/// Appending a segment adds its length to the total
proof fn lemma_total_len_push(s: Seq<Vec<u8>>, x: Vec<u8>)
    ensures
        spec_total_len(s.push(x)) == spec_total_len(s) + x@.len(),
{
    assert(s.push(x).drop_last() =~= s);
}

/// Buffer of outgoing retransmittable stream data
pub struct SendBuffer {
    /// Total size of `unacked_segments`
    unacked_len: usize,
    /// The first offset that hasn't been written by the application, i.e. the offset past the
    /// end of the unacknowledged data
    offset: u64,
    /// The first offset that hasn't been sent
    unsent: u64,
    /// Previously transmitted ranges deemed lost
    retransmits: RangeSet,
    /// Data queued by the application but not yet acknowledged; may or may not have been sent
    unacked_segments: VecDeque<Vec<u8>>,
}

impl SendBuffer {
    /// `unacked_len` is the size of the segments, which end at `offset`; `unsent` lies among
    /// them
    #[verifier::type_invariant]
    closed spec fn inv(self) -> bool {
        &&& self.unacked_len == spec_total_len(self.unacked_segments@)
        &&& self.unacked_len <= self.offset
        &&& self.offset - self.unacked_len <= self.unsent <= self.offset
    }

    /// First stream offset not written by the application
    pub closed spec fn spec_offset(&self) -> u64 {
        self.offset
    }

    /// First stream offset not sent
    pub closed spec fn spec_unsent(&self) -> u64 {
        self.unsent
    }

    /// Amount of written data not yet acknowledged
    pub closed spec fn spec_unacked_len(&self) -> usize {
        self.unacked_len
    }

    /// Offsets of sent data deemed lost
    pub closed spec fn spec_retransmits(&self) -> Set<u64> {
        self.retransmits@
    }

    /// The unacknowledged data, segment by segment
    pub closed spec fn spec_segments(&self) -> Seq<Seq<u8>> {
        self.unacked_segments@.map_values(|v: Vec<u8>| v@)
    }

    /// The unacknowledged data lies just below `offset`, and `unsent` within it
    pub fn bounds(&self)
        ensures
            self.spec_unacked_len() <= self.spec_offset(),
            self.spec_offset() - self.spec_unacked_len() <= self.spec_unsent() <= self.spec_offset(),
    {
        proof {
            use_type_invariant(self);
        }
    }

    /// Construct an empty buffer at the initial offset
    pub fn new() -> (r: SendBuffer)
        ensures
            r.spec_offset() == 0,
            r.spec_unsent() == 0,
            r.spec_unacked_len() == 0,
            r.spec_retransmits() == Set::<u64>::empty(),
            r.spec_segments() == Seq::<Seq<u8>>::empty(),
    {
        let r = SendBuffer {
            unacked_len: 0,
            offset: 0,
            unsent: 0,
            retransmits: RangeSet::new(),
            unacked_segments: VecDeque::new(),
        };
        assert(r.spec_segments() =~= Seq::<Seq<u8>>::empty());
        r
    }

    /// Whether all sent data has been acknowledged
    pub fn is_fully_acked(&self) -> (r: bool)
        ensures
            r == (self.spec_unacked_len() == 0),
    {
        self.unacked_len == 0
    }

    /// Mark all data as unsent, as when 0-RTT data was rejected; nothing may have been
    /// acknowledged yet
    pub fn retransmit_all_for_0rtt(&mut self)
        requires
            old(self).spec_offset() == old(self).spec_unacked_len(),
        ensures
            final(self).spec_unsent() == 0,
            final(self).spec_offset() == old(self).spec_offset(),
            final(self).spec_unacked_len() == old(self).spec_unacked_len(),
            final(self).spec_retransmits() == old(self).spec_retransmits(),
            final(self).spec_segments() == old(self).spec_segments(),
    {
        proof {
            use_type_invariant(&*self);
        }
        self.unsent = 0;
    }

    /// Whether there's data to send; there may be sent unacknowledged data even when this is
    /// false
    pub fn has_unsent_data(&self) -> (r: bool)
        ensures
            r == (self.spec_unsent() != self.spec_offset() || self.spec_retransmits()
                != Set::<u64>::empty()),
    {
        self.unsent != self.offset || !self.retransmits.is_empty()
    }

    /// First stream offset unwritten by the application, i.e. the offset that the next write
    /// will begin at
    pub fn offset(&self) -> (r: u64)
        ensures
            r == self.spec_offset(),
    {
        self.offset
    }

    /// Append application data to the end of the stream
    pub fn write(&mut self, data: Vec<u8>)
        requires
            old(self).spec_offset() + data@.len() <= u64::MAX,
            old(self).spec_unacked_len() + data@.len() <= usize::MAX,
        ensures
            final(self).spec_offset() == old(self).spec_offset() + data@.len(),
            final(self).spec_unacked_len() == old(self).spec_unacked_len() + data@.len(),
            final(self).spec_unsent() == old(self).spec_unsent(),
            final(self).spec_retransmits() == old(self).spec_retransmits(),
            final(self).spec_segments() == old(self).spec_segments().push(data@),
    {
        let mut tmp = SendBuffer::new();
        std::mem::swap(self, &mut tmp);
        proof {
            use_type_invariant(&tmp);
        }
        let SendBuffer { unacked_len, offset, unsent, retransmits, mut unacked_segments } = tmp;
        let ghost segs0 = unacked_segments@;
        let ghost d = data@;
        let n = data.len();
        proof {
            lemma_total_len_push(segs0, data);
        }
        unacked_segments.push_back(data);
        *self = SendBuffer {
            unacked_len: unacked_len + n,
            offset: offset + n as u64,
            unsent,
            retransmits,
            unacked_segments,
        };
        assert(self.spec_segments() =~= old(self).spec_segments().push(d));
    }
}

} // verus!
