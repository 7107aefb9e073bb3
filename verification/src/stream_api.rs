//! Errors and statistics of the asynchronous stream and endpoint interface.
use vstd::prelude::*;

use crate::streams::ReadableError;

verus! {

/// Errors that arise from reading from a stream
#[derive(Debug, Copy, Clone, PartialEq, Eq, Structural)]
pub enum ReadError {
    /// The stream has already been stopped, finished, or reset
    ClosedStream,
    /// Attempted an ordered read following an unordered read
    ///
    /// Performing an unordered read allows discontinuities to arise in the receive buffer of a
    /// stream which cannot be recovered, making further ordered reads impossible.
    IllegalOrderedRead,
}

impl From<ReadableError> for ReadError {
    fn from(e: ReadableError) -> (r: ReadError) {
        match e {
            ReadableError::ClosedStream => ReadError::ClosedStream,
            ReadableError::IllegalOrderedRead => ReadError::IllegalOrderedRead,
        }
    }
}

impl vstd::std_specs::convert::FromSpecImpl<ReadableError> for ReadError {
    open spec fn obeys_from_spec() -> bool {
        true
    }

    open spec fn from_spec(e: ReadableError) -> ReadError {
        match e {
            ReadableError::ClosedStream => ReadError::ClosedStream,
            ReadableError::IllegalOrderedRead => ReadError::IllegalOrderedRead,
        }
    }
}

/// Errors from reading a stream to its end
#[derive(Debug, Copy, Clone, PartialEq, Eq, Structural)]
pub enum ReadToEndError {
    /// An error occurred during reading
    Read(ReadError),
}

impl From<ReadError> for ReadToEndError {
    fn from(e: ReadError) -> (r: ReadToEndError) {
        ReadToEndError::Read(e)
    }
}

impl vstd::std_specs::convert::FromSpecImpl<ReadError> for ReadToEndError {
    open spec fn obeys_from_spec() -> bool {
        true
    }

    open spec fn from_spec(e: ReadError) -> ReadToEndError {
        ReadToEndError::Read(e)
    }
}

/// Statistics on endpoint activity
#[derive(Debug, Copy, Clone, PartialEq, Eq, Structural)]
pub struct EndpointStats {
    /// Cumulative number of QUIC handshakes sent from this endpoint
    pub outgoing_handshakes: u64,
    /// Cumulative number of QUIC handshakes accepted by this endpoint
    pub accepted_handshakes: u64,
}

impl Default for EndpointStats {
    fn default() -> (r: EndpointStats)
        ensures
            r.outgoing_handshakes == 0,
            r.accepted_handshakes == 0,
    {
        EndpointStats { outgoing_handshakes: 0, accepted_handshakes: 0 }
    }
}

} // verus!
