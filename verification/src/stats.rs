//! Connection statistics.
use vstd::prelude::*;

use crate::frame::Frame;

verus! {

/// Statistics about UDP datagrams transmitted or received on a connection
#[derive(Debug, Copy, Clone, PartialEq, Eq, Structural)]
pub struct UdpStats {
    /// The amount of UDP datagrams observed
    pub datagrams: u64,
    /// The total amount of bytes which have been transferred inside UDP datagrams
    pub bytes: u64,
    /// The amount of I/O operations executed
    ///
    /// Can be less than `datagrams` when GSO, GRO, and/or batched system calls are in use.
    pub ios: u64,
}

impl Default for UdpStats {
    fn default() -> (r: UdpStats)
        ensures
            r == (UdpStats { datagrams: 0, bytes: 0, ios: 0 }),
    {
        UdpStats { datagrams: 0, bytes: 0, ios: 0 }
    }
}

impl UdpStats {
    /// Account for one I/O operation that sent `datagrams` datagrams holding `bytes` bytes
    pub fn on_sent(&mut self, datagrams: u64, bytes: usize)
        requires
            old(self).datagrams + datagrams <= u64::MAX,
            old(self).bytes + bytes <= u64::MAX,
            old(self).ios < u64::MAX,
        ensures
            final(self).datagrams == old(self).datagrams + datagrams,
            final(self).bytes == old(self).bytes + bytes,
            final(self).ios == old(self).ios + 1,
    {
        self.datagrams = self.datagrams + datagrams;
        self.bytes = self.bytes + bytes as u64;
        self.ios = self.ios + 1;
    }
}

/// Number of frames transmitted of each frame type
#[derive(Debug, Copy, Clone, PartialEq, Eq, Structural)]
pub struct FrameStats {
    /// PATH_RESPONSE frames
    pub path_response: u64,
    /// HANDSHAKE_DONE frames, saturating
    pub handshake_done: u8,
    /// IMMEDIATE_ACK frames
    pub immediate_ack: u64,
    /// ACK_FREQUENCY frames
    pub ack_frequency: u64,
    /// PATH_CHALLENGE frames
    pub path_challenge: u64,
    /// CRYPTO frames
    pub crypto: u64,
    /// NEW_CONNECTION_ID frames
    pub new_connection_id: u64,
    /// RETIRE_CONNECTION_ID frames
    pub retire_connection_id: u64,
    /// DATAGRAM frames
    pub datagram: u64,
    /// STREAM frames
    pub stream: u64,
    /// PING frames
    pub ping: u64,
    /// ACK frames
    pub acks: u64,
    /// CONNECTION_CLOSE frames
    pub connection_close: u64,
    /// RESET_STREAM frames
    pub reset_stream: u64,
    /// STOP_SENDING frames
    pub stop_sending: u64,
}

impl Default for FrameStats {
    fn default() -> (r: FrameStats)
        ensures
            r == FrameStats::zero(),
    {
        FrameStats {
            path_response: 0,
            handshake_done: 0,
            immediate_ack: 0,
            ack_frequency: 0,
            path_challenge: 0,
            crypto: 0,
            new_connection_id: 0,
            retire_connection_id: 0,
            datagram: 0,
            stream: 0,
            ping: 0,
            acks: 0,
            connection_close: 0,
            reset_stream: 0,
            stop_sending: 0,
        }
    }
}

impl FrameStats {
    /// No frames counted
    pub open spec fn zero() -> FrameStats {
        FrameStats {
            path_response: 0,
            handshake_done: 0,
            immediate_ack: 0,
            ack_frequency: 0,
            path_challenge: 0,
            crypto: 0,
            new_connection_id: 0,
            retire_connection_id: 0,
            datagram: 0,
            stream: 0,
            ping: 0,
            acks: 0,
            connection_close: 0,
            reset_stream: 0,
            stop_sending: 0,
        }
    }

    /// Count `frame` under its type
    pub fn record(&mut self, frame: &Frame)
        requires
            frame is Ping ==> old(self).ping < u64::MAX,
            frame is Stream ==> old(self).stream < u64::MAX,
        ensures
            *final(self) == match frame {
                Frame::Padding => *old(self),
                Frame::Ping => FrameStats { ping: (old(self).ping + 1) as u64, ..*old(self) },
                Frame::Stream(_) => FrameStats { stream: (old(self).stream + 1) as u64, ..*old(self) },
            },
    {
        match frame {
            Frame::Padding => {},
            Frame::Ping => {
                self.ping = self.ping + 1;
            },
            Frame::Stream(_) => {
                self.stream = self.stream + 1;
            },
        }
    }
}

/// Statistics related to a transmission path
#[derive(Debug, Copy, Clone, PartialEq, Eq, Structural)]
pub struct PathStats {
    /// The amount of packets sent on this path
    pub sent_packets: u64,
    /// Congestion events on the connection
    pub congestion_events: u64,
}

impl Default for PathStats {
    fn default() -> (r: PathStats)
        ensures
            r == (PathStats { sent_packets: 0, congestion_events: 0 }),
    {
        PathStats { sent_packets: 0, congestion_events: 0 }
    }
}

/// Connection statistics
#[derive(Debug, Copy, Clone, PartialEq, Eq, Structural)]
pub struct ConnectionStats {
    /// Statistics about UDP datagrams received on a connection
    pub udp_rx: UdpStats,
    /// Statistics about frames transmitted on a connection
    pub frame_tx: FrameStats,
    /// Statistics about UDP datagrams transmitted on a connection
    pub udp_tx: UdpStats,
    /// Statistics related to the current transmission path
    pub path: PathStats,
    /// Statistics about frames received on a connection
    pub frame_rx: FrameStats,
}

impl Default for ConnectionStats {
    fn default() -> (r: ConnectionStats)
        ensures
            r.udp_rx == (UdpStats { datagrams: 0, bytes: 0, ios: 0 }),
            r.udp_tx == (UdpStats { datagrams: 0, bytes: 0, ios: 0 }),
            r.frame_tx == FrameStats::zero(),
            r.frame_rx == FrameStats::zero(),
            r.path == (PathStats { sent_packets: 0, congestion_events: 0 }),
    {
        ConnectionStats {
            udp_rx: UdpStats::default(),
            frame_tx: FrameStats::default(),
            udp_tx: UdpStats::default(),
            path: PathStats::default(),
            frame_rx: FrameStats::default(),
        }
    }
}

} // verus!
