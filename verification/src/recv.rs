//! The receiving half of a stream.
use vstd::prelude::*;

use crate::assembler::Assembler;
use crate::frame::Stream;
use crate::transport_error::{Code, Error as TransportError};
use crate::varint::VarInt;

verus! {

/// Largest stream offset plus one that a peer may use: offsets are variable-length integers
pub const MAX_STREAM_END: u64 = 0x4000_0000_0000_0000;

/// Where the receiving half of a stream stands
#[derive(Debug, Copy, Clone, PartialEq, Eq, Structural)]
pub enum RecvState {
    /// Receiving data; `size` is the final size once the peer has sent it
    Recv { size: Option<u64> },
    /// The peer reset the stream at final size `size`
    ResetRecvd { size: u64, error_code: VarInt },
}

/// The receiving half of a stream
pub struct Recv {
    /// Where the stream stands
    pub state: RecvState,
    /// Whether the application stopped the stream
    pub stopped: bool,
    /// The end of the furthest data received
    pub end: u64,
    /// Reassembly of the received data
    pub assembler: Assembler,
    /// The flow control limit for this stream last sent to the peer
    pub sent_max_stream_data: u64,
}

/// The final size of a stream in state `s`, once known
pub open spec fn spec_final_offset(s: RecvState) -> Option<u64> {
    match s {
        RecvState::Recv { size } => size,
        RecvState::ResetRecvd { size, .. } => Some(size),
    }
}

/// The amount by which data ending at `offset` moves the end `end` of a stream
pub open spec fn spec_new_bytes(offset: u64, end: u64) -> int {
    if offset > end {
        offset - end
    } else {
        0
    }
}

/// A stream receiving data, with `initial_max_data` as the flow control limit given to the peer
pub open spec fn spec_new_recv(initial_max_data: u64) -> Recv {
    Recv {
        state: RecvState::Recv { size: None },
        stopped: false,
        end: 0,
        assembler: Assembler::spec_new(),
        sent_max_stream_data: initial_max_data,
    }
}

/// The error, if any, that taking in data ending at `end` gives on stream `r`, given that
/// `received` bytes of the `max_data` allowed on the connection were received before
pub open spec fn spec_ingest_error(r: Recv, end: u64, fin: bool, received: u64, max_data: u64) -> Option<Code> {
    let fo = spec_final_offset(r.state);
    if end >= MAX_STREAM_END {
        Some(Code::FLOW_CONTROL_ERROR())
    } else if fo is Some && (end > fo->Some_0 || (fin && end != fo->Some_0)) {
        Some(Code::FINAL_SIZE_ERROR())
    } else if end > r.sent_max_stream_data || received + spec_new_bytes(end, r.end) > max_data {
        Some(Code::FLOW_CONTROL_ERROR())
    } else {
        None
    }
}

/// `post` is stream `pre` after data ending at `end` was taken in, the last data if `fin`
pub open spec fn spec_ingested(pre: Recv, post: Recv, end: u64, fin: bool) -> bool {
    &&& post.end == if pre.end < end {
        end
    } else {
        pre.end
    }
    &&& post.state == if fin && !pre.stopped && pre.state is Recv {
        RecvState::Recv { size: Some(end) }
    } else {
        pre.state
    }
    &&& post.stopped == pre.stopped
    &&& post.sent_max_stream_data == pre.sent_max_stream_data
    &&& post.assembler.spec_bytes_read() == pre.assembler.spec_bytes_read()
    &&& post.assembler.spec_ordered() == pre.assembler.spec_ordered()
    &&& post.assembler.spec_end() == if !pre.stopped && pre.assembler.spec_end() < end {
        end
    } else {
        pre.assembler.spec_end()
    }
}

/// Flow control holds for data that is taken in: it ends within the stream's limit, and the
/// connection's total with the new bytes stays within the connection's limit
pub proof fn lemma_ingest_within_flow_control(r: Recv, end: u64, fin: bool, received: u64, max_data: u64)
    requires
        spec_ingest_error(r, end, fin, received, max_data) is None,
    ensures
        end <= r.sent_max_stream_data,
        received + spec_new_bytes(end, r.end) <= max_data,
        end < MAX_STREAM_END,
{
}

impl Recv {
    /// A stream receiving data, with `initial_max_data` as the flow control limit given to the
    /// peer
    pub fn new(initial_max_data: u64) -> (r: Recv)
        ensures
            r == spec_new_recv(initial_max_data),
            r.state == (RecvState::Recv { size: None }),
            !r.stopped,
            r.end == 0,
            r.sent_max_stream_data == initial_max_data,
            r.assembler.spec_bytes_read() == 0,
            r.assembler.spec_end() == 0,
            r.assembler.spec_ordered(),
    {
        Recv {
            state: RecvState::Recv { size: None },
            assembler: Assembler::new(),
            sent_max_stream_data: initial_max_data,
            end: 0,
            stopped: false,
        }
    }

    /// Whether the total amount of data that the peer will send on this stream is unknown:
    /// true until a reset or the final frame has been received
    pub fn final_offset_unknown(&self) -> (r: bool)
        ensures
            r == (self.state == (RecvState::Recv { size: None })),
    {
        match self.state {
            RecvState::Recv { size: None } => true,
            _ => false,
        }
    }

    /// Whether stream-level flow control updates should be sent for this stream: they are
    /// redundant once the whole stream has been sent, and moot once the stream is stopped
    pub fn can_send_flow_control(&self) -> (r: bool)
        ensures
            r == (self.state == (RecvState::Recv { size: None }) && !self.stopped),
    {
        self.final_offset_unknown() && !self.stopped
    }

    /// Whether data is still being accepted from the peer
    pub fn is_receiving(&self) -> (r: bool)
        ensures
            r == (self.state is Recv),
    {
        match self.state {
            RecvState::Recv { .. } => true,
            RecvState::ResetRecvd { .. } => false,
        }
    }

    /// The final size of the stream, once known
    pub fn final_offset(&self) -> (r: Option<u64>)
        ensures
            r == spec_final_offset(self.state),
    {
        match self.state {
            RecvState::Recv { size } => size,
            RecvState::ResetRecvd { size, .. } => Some(size),
        }
    }

    /// The flow control credit consumed by data ending at `offset`, given that `received`
    /// bytes of the `max_data` allowed on the connection were received before; an error if
    /// more was consumed than issued
    pub fn credit_consumed_by(&self, offset: u64, received: u64, max_data: u64) -> (r: Result<
        u64,
        TransportError,
    >)
        requires
            received + spec_new_bytes(offset, self.end) <= u64::MAX,
        ensures
            ({
                let n = spec_new_bytes(offset, self.end);
                if offset > self.sent_max_stream_data || received + n > max_data {
                    r is Err && r->Err_0.code == Code::FLOW_CONTROL_ERROR()
                } else {
                    r == Ok::<u64, TransportError>(n as u64)
                }
            }),
    {
        let prev_end = self.end;
        let new_bytes = offset.saturating_sub(prev_end);
        if offset > self.sent_max_stream_data || received + new_bytes > max_data {
            return Err(TransportError::FLOW_CONTROL_ERROR(""));
        }
        Ok(new_bytes)
    }

    /// Process a STREAM frame, counted as a packet of `payload_len` bytes, given that
    /// `received` bytes of the `max_data` allowed on the connection were received before
    ///
    /// Returns the number of new bytes and whether the stream is now closed. Only data the
    /// application has already read can be taken in by the assembler (see
    /// [`Assembler::insert`]), hence the requirement on the frame of a stream that is not
    /// stopped.
    pub fn ingest(&mut self, frame: Stream, payload_len: usize, received: u64, max_data: u64) -> (r:
        Result<(u64, bool), TransportError>)
        requires
            frame.offset + frame.data@.len() <= u64::MAX,
            received + spec_new_bytes((frame.offset + frame.data@.len()) as u64, old(self).end)
                <= u64::MAX,
            !old(self).stopped ==> {
                &&& frame.data@.len() <= payload_len
                &&& old(self).assembler.spec_ordered()
                &&& frame.data@.len() == 0 || frame.offset + frame.data@.len()
                    <= old(self).assembler.spec_bytes_read()
            },
        ensures
            ({
                let end = (frame.offset + frame.data@.len()) as u64;
                match spec_ingest_error(*old(self), end, frame.fin, received, max_data) {
                    Some(c) => r is Err && r->Err_0.code == c && *final(self) == *old(self),
                    None => {
                        &&& r == Ok::<(u64, bool), TransportError>(
                            (spec_new_bytes(end, old(self).end) as u64, frame.fin && old(self).stopped),
                        )
                        &&& spec_ingested(*old(self), *final(self), end, frame.fin)
                    },
                }
            }),
    {
        let end = frame.offset + frame.data.len() as u64;
        if end >= MAX_STREAM_END {
            return Err(TransportError::FLOW_CONTROL_ERROR("maximum stream offset too large"));
        }
        if let Some(final_offset) = self.final_offset() {
            if end > final_offset || (frame.fin && end != final_offset) {
                return Err(TransportError::FINAL_SIZE_ERROR(""));
            }
        }
        let new_bytes = match self.credit_consumed_by(end, received, max_data) {
            Ok(n) => n,
            Err(e) => {
                return Err(e);
            },
        };
        if frame.fin && !self.stopped {
            if let RecvState::Recv { .. } = self.state {
                self.state = RecvState::Recv { size: Some(end) };
            }
        }
        if self.end < end {
            self.end = end;
        }
        let fin = frame.fin;
        if !self.stopped {
            self.assembler.insert(frame.offset, frame.data, payload_len);
        }
        Ok((new_bytes, fin && self.stopped))
    }
}

} // verus!
