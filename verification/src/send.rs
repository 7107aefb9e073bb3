//! The sending half of a stream.
use vstd::prelude::*;

use crate::send_buffer::SendBuffer;
use crate::varint::VarInt;

verus! {

/// Where the sending half of a stream stands
#[derive(Debug, Copy, Clone, PartialEq, Eq, Structural)]
pub enum SendState {
    /// Sent RESET
    ResetSent,
    /// Sending new data
    Ready,
}

/// The sending half of a stream
pub struct Send {
    /// Whether this stream is in the `connection_blocked` list of the stream state
    pub connection_blocked: bool,
    /// The peer's flow control limit for this stream
    pub max_data: u64,
    /// Where the stream stands
    pub state: SendState,
    /// Data written by the application and not yet acknowledged
    pub pending: SendBuffer,
    /// Priority of the stream
    pub priority: i32,
    /// Whether the end of the stream still has to be sent
    pub fin_pending: bool,
}

impl Send {
    /// A stream ready to send, with `max_data` as the peer's flow control limit
    pub fn new(max_data: VarInt) -> (r: Send)
        ensures
            r.max_data == max_data@,
            r.state == SendState::Ready,
            r.pending.spec_offset() == 0,
            r.pending.spec_unsent() == 0,
            r.pending.spec_unacked_len() == 0,
            r.pending.spec_retransmits() == Set::<u64>::empty(),
            r.priority == 0,
            !r.fin_pending,
            !r.connection_blocked,
    {
        Send {
            max_data: max_data.into_inner(),
            state: SendState::Ready,
            pending: SendBuffer::new(),
            priority: 0,
            fin_pending: false,
            connection_blocked: false,
        }
    }

    /// Whether the stream has been reset
    pub fn is_reset(&self) -> (r: bool)
        ensures
            r == (self.state == SendState::ResetSent),
    {
        match self.state {
            SendState::ResetSent => true,
            SendState::Ready => false,
        }
    }

    /// Whether the stream has data or its end to send
    pub fn is_pending(&self) -> (r: bool)
        ensures
            r == (self.pending.spec_unsent() != self.pending.spec_offset()
                || self.pending.spec_retransmits() != Set::<u64>::empty() || self.fin_pending),
    {
        self.pending.has_unsent_data() || self.fin_pending
    }
}

} // verus!
