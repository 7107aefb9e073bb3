//! Stream events, errors and the queue of streams with pending data.
use vstd::prelude::*;

use crate::varint::VarInt;
use crate::{Dir, StreamId};

verus! {

/// Application events about streams
#[derive(Debug, Copy, Clone, PartialEq, Eq, Structural)]
pub enum StreamEvent {
    /// One or more new streams has been opened and might be readable
    Opened {
        /// Directionality for which streams have been opened
        dir: Dir,
    },
    /// A formerly write-blocked stream might be ready for a write or have been stopped
    ///
    /// Only generated for streams that are currently open.
    Writable {
        /// Which stream is now writable
        id: StreamId,
    },
    /// A currently open stream likely has data or errors waiting to be read
    Readable {
        /// Which stream is now readable
        id: StreamId,
    },
    /// At least one new stream of a certain directionality may be opened
    Available {
        /// Directionality for which streams are newly available
        dir: Dir,
    },
}

/// A queue of streams with pending outgoing data
pub struct PendingStreamsQueue {
    /// The queued streams, in the order they were queued
    streams: Vec<StreamId>,
    /// A monotonically decreasing counter, used to implement round-robin scheduling for streams
    /// of the same priority
    recency: u64,
}

impl PendingStreamsQueue {
    /// The queued streams, in the order they were queued
    pub closed spec fn queued(&self) -> Seq<StreamId> {
        self.streams@
    }

    /// The recency counter
    pub closed spec fn spec_recency(&self) -> u64 {
        self.recency
    }

    /// An empty queue, with the recency counter at its maximum
    pub fn new() -> (r: PendingStreamsQueue)
        ensures
            r.queued() == Seq::<StreamId>::empty(),
            r.spec_recency() == u64::MAX,
    {
        PendingStreamsQueue { streams: Vec::new(), recency: u64::MAX }
    }

    /// Push a pending stream ID, queued after any already-queued streams
    pub fn push_pending(&mut self, id: StreamId, priority: i32)
        requires
            old(self).spec_recency() > 0,
        ensures
            final(self).queued() == old(self).queued().push(id),
            final(self).spec_recency() == old(self).spec_recency() - 1,
    {
        self.recency = self.recency - 1;
        self.streams.push(id);
    }

    /// Number of queued streams
    pub fn len(&self) -> (r: usize)
        ensures
            r == self.queued().len(),
    {
        self.streams.len()
    }

    /// The `i`th queued stream
    pub fn get(&self, i: usize) -> (r: StreamId)
        requires
            i < self.queued().len(),
        ensures
            r == self.queued()[i as int],
    {
        self.streams[i]
    }

    /// Drop every queued stream; the recency counter is kept
    pub fn clear(&mut self)
        ensures
            final(self).queued() == Seq::<StreamId>::empty(),
            final(self).spec_recency() == old(self).spec_recency(),
    {
        self.streams.clear();
    }

    /// Whether no stream is queued
    pub fn is_empty(&self) -> (r: bool)
        ensures
            r == (self.queued().len() == 0),
    {
        self.streams.len() == 0
    }
}

/// Which half of a stream
#[derive(Debug, Copy, Clone, PartialEq, Eq, Structural)]
pub enum StreamHalf {
    /// The sending half
    Send,
    /// The receiving half
    Recv,
}

/// Indicates whether a frame needs to be transmitted
#[derive(Copy, Clone, Debug, PartialEq, Eq, Structural)]
pub struct ShouldTransmit(pub bool);

impl ShouldTransmit {
    /// Returns whether a frame should be transmitted
    pub fn should_transmit(self) -> (r: bool)
        ensures
            r == self.0,
    {
        self.0
    }
}

impl Default for ShouldTransmit {
    fn default() -> (r: ShouldTransmit)
        ensures
            r == ShouldTransmit(false),
    {
        ShouldTransmit(false)
    }
}

/// Errors triggered when opening a recv stream for reading
#[derive(Debug, Copy, Clone, PartialEq, Eq, Structural)]
pub enum ReadableError {
    /// The stream has not been opened or was already stopped, finished, or reset
    ClosedStream,
    /// Attempted an ordered read following an unordered read
    ///
    /// Performing an unordered read allows discontinuities to arise in the receive buffer of a
    /// stream which cannot be recovered, making further ordered reads impossible.
    IllegalOrderedRead,
}

/// Errors triggered when reading from a recv stream
#[derive(Debug, Copy, Clone, PartialEq, Eq, Structural)]
pub enum ReadError {
    /// The peer abandoned transmitting data on this stream.
    ///
    /// Carries an application-defined error code.
    Reset(VarInt),
    /// No more data is currently available on this stream.
    Blocked,
}

/// Errors triggered while writing to a send stream
#[derive(Debug, Copy, Clone, PartialEq, Eq, Structural)]
pub enum WriteError {
    /// The peer is not able to accept additional data, or the connection is congested.
    Blocked,
    /// The stream has not been opened or has already been finished or reset
    ClosedStream,
}

/// Reasons why attempting to finish a stream might fail
#[derive(Debug, Copy, Clone, PartialEq, Eq, Structural)]
pub enum FinishError {
    /// The stream has not been opened or has already been finished or reset
    ClosedStream,
}

/// Indicates how many bytes and chunks had been transferred in a write operation
#[derive(Debug, Copy, Clone, PartialEq, Eq, Structural)]
pub struct Written {
    /// The amount of bytes which had been written
    pub bytes: usize,
}

impl Default for Written {
    fn default() -> (r: Written)
        ensures
            r.bytes == 0,
    {
        Written { bytes: 0 }
    }
}

} // verus!
