//! Configuration of MTU discovery, acknowledgement frequency and idle timeouts.
use vstd::prelude::*;

use crate::varint::{VarInt, VARINT_BOUND};
use crate::cid_generator::{ConnectionIdGenerator, RandomConnectionIdGenerator};
use crate::crypto::{HandshakeTokenKey, HmacKey};
use crate::shared::{ConnectionId, MAX_CID_SIZE};
use crate::endpoint::ServerLimits;
use crate::transport_parameters::{SocketAddrV4, SocketAddrV6};
use crate::{default_supported_versions, INITIAL_MTU};

verus! {

/// Parameters governing MTU discovery; durations in nanoseconds
#[derive(Debug, Copy, Clone, PartialEq, Eq, Structural)]
pub struct MtuDiscoveryConfig {
    /// The upper bound to the max UDP payload size that MTU discovery will search for
    pub upper_bound: u16,
    /// The time to wait after a search completes before starting a new one
    pub interval: u64,
    /// The minimum change of MTU that justifies a new search
    pub minimum_change: u16,
    /// The time to wait after black hole detection before searching again
    pub black_hole_cooldown: u64,
}

impl Default for MtuDiscoveryConfig {
    fn default() -> (r: MtuDiscoveryConfig)
        ensures
            r == (MtuDiscoveryConfig {
                upper_bound: 1452,
                interval: 600_000_000_000,
                minimum_change: 20,
                black_hole_cooldown: 60_000_000_000,
            }),
    {
        MtuDiscoveryConfig {
            upper_bound: 1452,
            interval: 600_000_000_000,
            minimum_change: 20,
            black_hole_cooldown: 60_000_000_000,
        }
    }
}

/// Parameters for controlling the peer's acknowledgement frequency
#[derive(Debug, Copy, Clone, PartialEq, Eq, Structural)]
pub struct AckFrequencyConfig {
    /// The number of ack-eliciting packets the peer may receive before it must send an ACK
    pub ack_eliciting_threshold: VarInt,
    /// The reordering the peer tolerates before sending an ACK
    pub reordering_threshold: VarInt,
    /// The largest delay, in nanoseconds, the peer is asked to wait before sending an ACK; the
    /// peer's own maximum ACK delay if unset
    pub max_ack_delay: Option<u64>,
}

/// Maximum duration of inactivity to accept before timing out the connection.
///
/// This wraps an underlying [`VarInt`], representing the duration in milliseconds.
#[derive(Debug, Copy, Clone, PartialEq, Eq, Structural)]
pub struct IdleTimeout(pub VarInt);

impl IdleTimeout {
    /// The timeout as a number of milliseconds
    pub open spec fn millis(self) -> u64 {
        self.0@
    }

    /// The timeout of `nanos` nanoseconds, rounded down to whole milliseconds
    pub fn from_nanos(nanos: u64) -> (r: IdleTimeout)
        ensures
            r.millis() == nanos / 1_000_000,
    {
        let ms = nanos / 1_000_000;
        match VarInt::from_u64(ms) {
            Ok(v) => IdleTimeout(v),
            Err(_) => {
                assert(false);
                IdleTimeout(VarInt::from_u32(0))
            },
        }
    }
}

impl From<VarInt> for IdleTimeout {
    fn from(inner: VarInt) -> (r: IdleTimeout) {
        IdleTimeout(inner)
    }
}

impl vstd::std_specs::convert::FromSpecImpl<VarInt> for IdleTimeout {
    open spec fn obeys_from_spec() -> bool {
        true
    }

    open spec fn from_spec(inner: VarInt) -> IdleTimeout {
        IdleTimeout(inner)
    }
}

/// Parameters governing the core QUIC state machine; durations in nanoseconds
///
/// Default values should be suitable for most internet applications.
#[derive(Debug, Copy, Clone)]
pub struct TransportConfig {
    /// The RTT assumed before it is measured
    pub initial_rtt: u64,
    /// Maximum number of incoming bidirectional streams that may be open concurrently
    pub max_concurrent_bidi_streams: VarInt,
    /// Maximum number of incoming unidirectional streams that may be open concurrently
    pub max_concurrent_uni_streams: VarInt,
    /// Maximum number of bytes the peer may transmit without acknowledgement on any one stream
    pub stream_receive_window: VarInt,
    /// Maximum number of bytes the peer may transmit across all streams of a connection
    pub receive_window: VarInt,
    /// Maximum number of bytes to transmit to a peer without acknowledgment
    pub send_window: u64,
    /// Whether to use segmentation offload where available
    pub enable_segmentation_offload: bool,
    /// MTU discovery configuration, if enabled
    pub mtu_discovery_config: Option<MtuDiscoveryConfig>,
    /// The smallest MTU the path is assumed to support
    pub min_mtu: u16,
    /// The MTU to start with
    pub initial_mtu: u16,
    /// ACK frequency configuration, if the extension is used
    pub ack_frequency_config: Option<AckFrequencyConfig>,
    /// Whether to take part in latency spin bit measurement
    pub allow_spin: bool,
    /// Period of inactivity before sending a keep-alive packet, if any
    pub keep_alive_interval: Option<u64>,
    /// Maximum duration of inactivity to accept before timing out the connection, in
    /// milliseconds; `None` for an infinite timeout
    pub max_idle_timeout: Option<VarInt>,
    /// Maximum number of bytes of crypto data buffered out of order
    pub crypto_buffer_size: usize,
    /// Maximum reordering in packet number space before FACK style loss detection considers a
    /// packet lost
    pub packet_threshold: u32,
    /// Number of consecutive PTOs after which network is considered to be experiencing
    /// persistent congestion
    pub persistent_congestion_threshold: u32,
    /// Maximum number of incoming application datagram bytes to buffer, or `None` to disable
    /// incoming datagrams
    pub datagram_receive_buffer_size: Option<usize>,
    /// Maximum number of outgoing application datagram bytes to buffer
    pub datagram_send_buffer_size: usize,
}

/// Window of a stream needed to avoid pipeline stalls at 100 Mbps with a 100 ms round trip
pub const STREAM_RWND: u32 = 1_250_000;

/// Whether `r` is the default transport configuration
pub open spec fn spec_default_transport(r: TransportConfig) -> bool {
    &&& r.initial_rtt == 333_000_000
    &&& r.max_concurrent_bidi_streams@ == 100
    &&& r.max_concurrent_uni_streams@ == 100
    &&& r.stream_receive_window@ == STREAM_RWND
    &&& r.receive_window@ == VARINT_BOUND - 1
    &&& r.send_window == 8 * STREAM_RWND
    &&& r.enable_segmentation_offload
    &&& r.min_mtu == INITIAL_MTU
    &&& r.initial_mtu == INITIAL_MTU
    &&& r.mtu_discovery_config == Some(
            MtuDiscoveryConfig {
                upper_bound: 1452,
                interval: 600_000_000_000,
                minimum_change: 20,
                black_hole_cooldown: 60_000_000_000,
            },
        )
    &&& r.ack_frequency_config is None
    &&& r.allow_spin
    &&& r.keep_alive_interval is None
    &&& r.max_idle_timeout matches Some(t) && t@ == 10_000
    &&& r.crypto_buffer_size == 16 * 1024
    &&& r.packet_threshold == 3
    &&& r.persistent_congestion_threshold == 3
    &&& r.datagram_receive_buffer_size == Some(STREAM_RWND as usize)
    &&& r.datagram_send_buffer_size == 1024 * 1024
}

impl Default for TransportConfig {
    fn default() -> (r: TransportConfig)
        ensures
            spec_default_transport(r),
    {
        TransportConfig {
            initial_rtt: 333_000_000,
            max_concurrent_bidi_streams: VarInt::from_u32(100),
            max_concurrent_uni_streams: VarInt::from_u32(100),
            stream_receive_window: VarInt::from_u32(STREAM_RWND),
            receive_window: VarInt::max_value(),
            send_window: 8 * STREAM_RWND as u64,
            enable_segmentation_offload: true,
            mtu_discovery_config: Some(MtuDiscoveryConfig::default()),
            min_mtu: INITIAL_MTU,
            initial_mtu: INITIAL_MTU,
            ack_frequency_config: None,
            allow_spin: true,
            keep_alive_interval: None,
            max_idle_timeout: Some(VarInt::from_u32(10_000)),
            crypto_buffer_size: 16 * 1024,
            packet_threshold: 3,
            persistent_congestion_threshold: 3,
            datagram_receive_buffer_size: Some(STREAM_RWND as usize),
            datagram_send_buffer_size: 1024 * 1024,
        }
    }
}

impl TransportConfig {
    /// The MTU to start with: the initial MTU, but at least the minimum MTU
    pub fn get_initial_mtu(&self) -> (r: u16)
        ensures
            r == if self.initial_mtu > self.min_mtu {
                self.initial_mtu
            } else {
                self.min_mtu
            },
    {
        if self.initial_mtu > self.min_mtu {
            self.initial_mtu
        } else {
            self.min_mtu
        }
    }

    /// Maximum duration of inactivity to accept before timing out the connection
    ///
    /// The true idle timeout is the minimum of this and the peer's own max idle timeout. `None`
    /// represents an infinite timeout.
    pub fn max_idle_timeout(&mut self, value: Option<IdleTimeout>) -> (r: &mut TransportConfig)
        ensures
            *r == (TransportConfig {
                max_idle_timeout: match value {
                    Some(t) => Some(t.0),
                    None => None,
                },
                ..*old(self)
            }),
            *final(self) == *final(r),
    {
        self.max_idle_timeout = match value {
            Some(t) => Some(t.0),
            None => None,
        };
        self
    }
}

/// Parameters governing incoming connections, with the key of type `K` that protects handshake
/// tokens; durations in nanoseconds
pub struct ServerConfig<K: HandshakeTokenKey> {
    /// Maximum number of received bytes to buffer for each incoming connection
    pub incoming_buffer_size: u64,
    /// Maximum number of received bytes to buffer for all incoming connections collectively
    pub incoming_buffer_size_total: u64,
    /// Whether to allow clients to migrate to new addresses
    pub migration: bool,
    /// Maximum number of incoming connections to buffer
    pub max_incoming: usize,
    /// Transport configuration to use for incoming connections
    pub transport: TransportConfig,
    /// The IPv4 address the server would rather clients use, if any
    pub preferred_address_v4: Option<SocketAddrV4>,
    /// The IPv6 address the server would rather clients use, if any
    pub preferred_address_v6: Option<SocketAddrV6>,
    /// Used to derive one-time AEAD keys that protect handshake tokens
    pub token_key: K,
    /// Time after a stateless retry token was issued for which it's considered valid
    pub retry_token_lifetime: u64,
}

impl<K: HandshakeTokenKey> ServerConfig<K> {
    /// A default configuration with the handshake token key `token_key`: migration allowed,
    /// 10 MiB buffered per incoming connection and 100 MiB in all, at most 2^16 incoming
    /// connections, the default transport configuration, no preferred address, and retry tokens
    /// valid for 15 seconds
    pub fn new(token_key: K) -> (r: ServerConfig<K>)
        ensures
            r.migration,
            r.incoming_buffer_size == 10 * 1024 * 1024,
            r.incoming_buffer_size_total == 100 * 1024 * 1024,
            r.max_incoming == 65536,
            spec_default_transport(r.transport),
            r.preferred_address_v4 is None,
            r.preferred_address_v6 is None,
            r.token_key == token_key,
            r.retry_token_lifetime == 15_000_000_000,
    {
        ServerConfig {
            migration: true,
            incoming_buffer_size: 10 * 1024 * 1024,
            incoming_buffer_size_total: 100 * 1024 * 1024,
            max_incoming: 65536,
            transport: TransportConfig::default(),
            preferred_address_v4: None,
            preferred_address_v6: None,
            token_key,
            retry_token_lifetime: 15_000_000_000,
        }
    }

    /// Set the maximum number of received bytes to buffer for each incoming connection
    pub fn incoming_buffer_size(&mut self, incoming_buffer_size: u64) -> (r: &mut ServerConfig<K>)
        ensures
            r.incoming_buffer_size == incoming_buffer_size,
            r.incoming_buffer_size_total == old(self).incoming_buffer_size_total,
            r.migration == old(self).migration,
            r.max_incoming == old(self).max_incoming,
            r.transport == old(self).transport,
            r.preferred_address_v4 == old(self).preferred_address_v4,
            r.preferred_address_v6 == old(self).preferred_address_v6,
            r.token_key == old(self).token_key,
            r.retry_token_lifetime == old(self).retry_token_lifetime,
            *final(self) == *final(r),
    {
        self.incoming_buffer_size = incoming_buffer_size;
        self
    }

    /// Set the maximum number of received bytes to buffer for all incoming connections
    /// collectively
    pub fn incoming_buffer_size_total(&mut self, incoming_buffer_size_total: u64) -> (r:
        &mut ServerConfig<K>)
        ensures
            r.incoming_buffer_size_total == incoming_buffer_size_total,
            r.incoming_buffer_size == old(self).incoming_buffer_size,
            r.migration == old(self).migration,
            r.max_incoming == old(self).max_incoming,
            r.transport == old(self).transport,
            r.preferred_address_v4 == old(self).preferred_address_v4,
            r.preferred_address_v6 == old(self).preferred_address_v6,
            r.token_key == old(self).token_key,
            r.retry_token_lifetime == old(self).retry_token_lifetime,
            *final(self) == *final(r),
    {
        self.incoming_buffer_size_total = incoming_buffer_size_total;
        self
    }

    /// The limits an endpoint serving with this configuration puts on connection attempts
    pub fn limits(&self) -> (r: ServerLimits)
        ensures
            r == (ServerLimits {
                incoming_buffer_size: self.incoming_buffer_size,
                incoming_buffer_size_total: self.incoming_buffer_size_total,
                max_incoming: self.max_incoming,
            }),
    {
        ServerLimits {
            incoming_buffer_size: self.incoming_buffer_size,
            incoming_buffer_size_total: self.incoming_buffer_size_total,
            max_incoming: self.max_incoming,
        }
    }
}

/// Global configuration for the endpoint, affecting all connections, with the key of type `R`
/// that makes stateless reset tokens; durations in nanoseconds
pub struct EndpointConfig<R: HmacKey> {
    /// Optional seed to be used internally for random number generation
    pub rng_seed: Option<[u8; 32]>,
    /// Maximum UDP payload size accepted from peers
    pub max_udp_payload_size: VarInt,
    /// QUIC versions this endpoint supports, the preferred first
    pub supported_versions: Vec<u32>,
    /// Whether to accept QUIC packets containing any value for the fixed bit
    pub grease_quic_bit: bool,
    /// Key for stateless reset tokens
    pub reset_key: R,
    /// Minimum interval between outgoing stateless reset packets
    pub min_reset_interval: u64,
}

impl<R: HmacKey> EndpointConfig<R> {
    /// A default configuration with the stateless reset key `reset_key`: no seed, UDP payloads
    /// of up to 1472 bytes (an Ethernet MTU minus the IP and UDP headers), the default versions,
    /// greasing of the fixed bit, and at most one stateless reset every 20 ms
    pub fn new(reset_key: R) -> (r: EndpointConfig<R>)
        ensures
            r.rng_seed is None,
            r.max_udp_payload_size@ == 1500 - 28,
            r.supported_versions@ == seq![
                0x00000001u32,
                0xff00_001du32,
                0xff00_001eu32,
                0xff00_001fu32,
                0xff00_0020u32,
                0xff00_0021u32,
                0xff00_0022u32,
            ],
            r.grease_quic_bit,
            r.reset_key == reset_key,
            r.min_reset_interval == 20_000_000,
    {
        EndpointConfig {
            rng_seed: None,
            max_udp_payload_size: VarInt::from_u32(1500 - 28),
            supported_versions: default_supported_versions(),
            grease_quic_bit: true,
            reset_key,
            min_reset_interval: 20_000_000,
        }
    }

    /// The maximum UDP payload size accepted from peers
    pub fn get_max_udp_payload_size(&self) -> (r: u64)
        ensures
            r == self.max_udp_payload_size@,
    {
        self.max_udp_payload_size.into_inner()
    }
}

/// Configuration for outgoing connections
pub struct ClientConfig {
    /// Transport configuration to use
    pub transport: TransportConfig,
    /// QUIC protocol version to use
    pub version: u32,
}

impl ClientConfig {
    /// A default configuration: the default transport configuration and QUIC version 1
    pub fn new() -> (r: ClientConfig)
        ensures
            spec_default_transport(r.transport),
            r.version == 1,
    {
        ClientConfig { transport: TransportConfig::default(), version: 1 }
    }

    /// Set the QUIC version to use
    pub fn version(&mut self, version: u32) -> (r: &mut ClientConfig)
        ensures
            r.version == version,
            r.transport == old(self).transport,
            *final(self) == *final(r),
    {
        self.version = version;
        self
    }

    /// The destination connection ID of the first Initial packet: random, of the largest length
    pub fn initial_dst_cid(&self) -> (r: ConnectionId)
        ensures
            r@.len() == MAX_CID_SIZE,
    {
        let mut generator = RandomConnectionIdGenerator::new(MAX_CID_SIZE);
        generator.generate_cid()
    }
}

} // verus!
