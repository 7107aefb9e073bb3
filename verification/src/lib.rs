//! Verified core of a QUIC transport implementation: variable-length integers,
//! packet numbers, packet headers, transport parameters, range sets and the
//! small state machines that drive a connection.
#![allow(unused_imports)]

use vstd::prelude::*;

pub mod ack_frequency;
pub mod assembler;
pub mod byte_map;
pub mod cid_generator;
pub mod cid_queue;
pub mod cid_state;
pub mod coding;
pub mod config;
pub mod congestion;
pub mod connection;
pub mod crypto;
pub mod endpoint;
pub mod frame;
pub mod mtud;
pub mod packet;
pub mod packet_crypto;
pub mod packet_space;
pub mod parameter_laws;
pub mod paths;
pub mod range_set;
pub mod recv;
pub mod send;
pub mod send_buffer;
pub mod shared;
pub mod spaces;
pub mod stats;
pub mod streams;
pub mod stream_api;
pub mod streams_state;
pub mod token;
pub mod transport_error;
pub mod transport_parameters;
pub mod udp_state;
pub mod varint;

verus! {

/// Timer granularity, in nanoseconds (one millisecond)
pub const TIMER_GRANULARITY: u64 = 1_000_000;

/// The datagram size every path is assumed to support
pub const INITIAL_MTU: u16 = 1200;

/// The largest UDP payload
pub const MAX_UDP_PAYLOAD: u16 = 65527;

/// The smallest datagram that may carry a client's first Initial packet
pub const MIN_INITIAL_SIZE: u16 = 1200;

/// Upper bound on the number of streams of one direction
pub const MAX_STREAM_COUNT: u64 = 0x1000_0000_0000_0000;

/// Number of local connection IDs kept available for the peer
pub const LOC_CID_COUNT: u64 = 8;

/// Whether an endpoint was the initiator of a connection
#[derive(Debug, Copy, Clone, PartialEq, Eq, Structural, Hash)]
pub enum Side {
    /// The initiator of a connection
    Client,
    /// The acceptor of a connection
    Server,
}

impl Side {
    /// Shorthand for `self == Side::Server`
    pub fn is_server(self) -> (r: bool)
        ensures
            r == (self == Side::Server),
    {
        match self {
            Side::Server => true,
            Side::Client => false,
        }
    }

    /// Shorthand for `self == Side::Client`
    pub fn is_client(self) -> (r: bool)
        ensures
            r == (self == Side::Client),
    {
        match self {
            Side::Client => true,
            Side::Server => false,
        }
    }
}

/// The QUIC protocol versions implemented
pub fn default_supported_versions() -> (r: Vec<u32>)
    ensures
        r@ == seq![
            0x00000001u32,
            0xff00_001du32,
            0xff00_001eu32,
            0xff00_001fu32,
            0xff00_0020u32,
            0xff00_0021u32,
            0xff00_0022u32,
        ],
{
    let mut v = Vec::new();
    v.push(0x00000001u32);
    v.push(0xff00_001du32);
    v.push(0xff00_001eu32);
    v.push(0xff00_001fu32);
    v.push(0xff00_0020u32);
    v.push(0xff00_0021u32);
    v.push(0xff00_0022u32);
    assert(v@ =~= seq![
        0x00000001u32,
        0xff00_001du32,
        0xff00_001eu32,
        0xff00_001fu32,
        0xff00_0020u32,
        0xff00_0021u32,
        0xff00_0022u32,
    ]);
    v
}

/// Whether a stream communicates data in both directions or only from the initiator
#[derive(Debug, Copy, Clone, PartialEq, Eq, Structural, Hash)]
pub enum Dir {
    /// Data flows in both directions
    Bi,
    /// Data flows only from the stream's initiator
    Uni,
}

impl Dir {
    /// Both directions, bidirectional first
    pub fn iter() -> (r: Vec<Dir>)
        ensures
            r@ == seq![Dir::Bi, Dir::Uni],
    {
        let mut v = Vec::new();
        v.push(Dir::Bi);
        v.push(Dir::Uni);
        assert(v@ =~= seq![Dir::Bi, Dir::Uni]);
        v
    }
}

/// Identifier for a stream within a particular connection
#[derive(Debug, Copy, Clone, PartialEq, Eq, Structural, Hash)]
pub struct StreamId(pub u64);

/// Numeric value of a side in a stream ID's low bit
pub open spec fn spec_side_bit(side: Side) -> u64 {
    match side {
        Side::Client => 0,
        Side::Server => 1,
    }
}

/// Numeric value of a direction in a stream ID's second bit
pub open spec fn spec_dir_bit(dir: Dir) -> u64 {
    match dir {
        Dir::Bi => 0,
        Dir::Uni => 1,
    }
}

/// The stream ID of the `index`th stream of direction `dir` opened by `initiator`
pub open spec fn spec_stream_id(initiator: Side, dir: Dir, index: u64) -> u64 {
    (index * 4 + spec_dir_bit(dir) * 2 + spec_side_bit(initiator)) as u64
}

impl StreamId {
    /// Create a new StreamId
    pub fn new(initiator: Side, dir: Dir, index: u64) -> (r: StreamId)
        requires
            index < 0x4000_0000_0000_0000,
        ensures
            r.0 == spec_stream_id(initiator, dir, index),
    {
        let s: u64 = match initiator {
            Side::Client => 0,
            Side::Server => 1,
        };
        let d: u64 = match dir {
            Dir::Bi => 0,
            Dir::Uni => 1,
        };
        StreamId(index * 4 + d * 2 + s)
    }

    /// Which side of a connection initiated the stream
    pub fn initiator(self) -> (r: Side)
        ensures
            r == (if self.0 % 2 == 0 {
                Side::Client
            } else {
                Side::Server
            }),
    {
        if self.0 % 2 == 0 {
            Side::Client
        } else {
            Side::Server
        }
    }

    /// Which directions data flows in
    pub fn dir(self) -> (r: Dir)
        ensures
            r == (if (self.0 / 2) % 2 == 0 {
                Dir::Bi
            } else {
                Dir::Uni
            }),
    {
        if (self.0 / 2) % 2 == 0 {
            Dir::Bi
        } else {
            Dir::Uni
        }
    }

    /// Distinguishes streams of the same initiator and directionality
    pub fn index(self) -> (r: u64)
        ensures
            r == self.0 / 4,
    {
        self.0 / 4
    }
}

/// A stream ID gives back the initiator, direction and index it was made from
pub proof fn lemma_stream_id_parts(initiator: Side, dir: Dir, index: u64)
    requires
        index < 0x4000_0000_0000_0000,
    ensures
        spec_stream_id(initiator, dir, index) % 2 == spec_side_bit(initiator),
        (spec_stream_id(initiator, dir, index) / 2) % 2 == spec_dir_bit(dir),
        spec_stream_id(initiator, dir, index) / 4 == index,
{
}

} // verus!
