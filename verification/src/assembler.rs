//! Reassembly of stream data received out of order.
use vstd::prelude::*;

use crate::range_set::RangeSet;

verus! {

/// How the data of a stream is being read
pub enum State {
    /// Only ordered reads have been used
    Ordered,
    /// Unordered reads have been used
    Unordered {
        /// The set of offsets that have been received from the peer, including portions not
        /// yet read by the application
        recvd: RangeSet,
    },
}

/// Helper to assemble unordered stream frames into an ordered stream
pub struct Assembler {
    /// Number of bytes read by the application. When only ordered reads have been used, this is
    /// the length of the contiguous prefix of the stream which has been consumed by the
    /// application, aka the stream offset.
    bytes_read: u64,
    /// The end of the furthest data received
    end: u64,
    /// How the stream is being read
    state: State,
}

impl Assembler {
    /// Number of bytes consumed by the application
    pub closed spec fn spec_bytes_read(&self) -> u64 {
        self.bytes_read
    }

    /// The end of the furthest data received
    pub closed spec fn spec_end(&self) -> u64 {
        self.end
    }

    /// Whether only ordered reads have been used
    pub closed spec fn spec_ordered(&self) -> bool {
        self.state is Ordered
    }

    /// An assembler for a stream of which nothing has been received or read
    pub closed spec fn spec_new() -> Assembler {
        Assembler { bytes_read: 0, end: 0, state: State::Ordered }
    }

    /// The fresh assembler has read and received nothing, in order
    pub proof fn lemma_new()
        ensures
            Assembler::spec_new().spec_bytes_read() == 0,
            Assembler::spec_new().spec_end() == 0,
            Assembler::spec_new().spec_ordered(),
    {
    }

    /// An assembler for a stream of which nothing has been received or read
    pub fn new() -> (r: Assembler)
        ensures
            r == Assembler::spec_new(),
            r.spec_bytes_read() == 0,
            r.spec_end() == 0,
            r.spec_ordered(),
    {
        Assembler { bytes_read: 0, end: 0, state: State::Ordered }
    }

    /// Number of bytes consumed by the application
    pub fn bytes_read(&self) -> (r: u64)
        ensures
            r == self.spec_bytes_read(),
    {
        self.bytes_read
    }

    /// Take in `bytes` received at stream offset `offset`, from a packet of `allocation_size`
    /// bytes
    ///
    /// Only data that the application has already read is taken in this way: it is dropped,
    /// and only the end of the received data moves. Storing new data is not supported, so
    /// `bytes` is empty or lies below `bytes_read`, and the stream is read in order.
    pub fn insert(&mut self, offset: u64, bytes: Vec<u8>, allocation_size: usize)
        requires
            bytes@.len() <= allocation_size,
            offset + bytes@.len() <= u64::MAX,
            old(self).spec_ordered(),
            bytes@.len() == 0 || offset + bytes@.len() <= old(self).spec_bytes_read(),
        ensures
            final(self).spec_end() == if old(self).spec_end() < offset + bytes@.len() {
                (offset + bytes@.len()) as u64
            } else {
                old(self).spec_end()
            },
            final(self).spec_bytes_read() == old(self).spec_bytes_read(),
            final(self).spec_ordered(),
    {
        let end = offset + bytes.len() as u64;
        if self.end < end {
            self.end = end;
        }
    }
}

} // verus!
