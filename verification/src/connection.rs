//! Connection states, the reasons a connection ends and the events it reports.
use vstd::prelude::*;
use vstd::string::StrSliceExecFns;

use crate::coding::{from_be32, get_u32};
use crate::frame::{ApplicationClose, ConnectionClose, Crypto, DATAGRAM_SIZE_BOUND};
use crate::packet_space::PacketSpace;
use crate::Side;
use crate::varint::VarInt;
use crate::packet::SpaceId;
use crate::paths::RttEstimator;
use crate::endpoint::EndpointEvent;
use crate::streams::StreamEvent;
use crate::streams_state::StreamsState;
use std::collections::VecDeque;
use crate::transport_error::Error as TransportError;
use crate::transport_parameters::TransportParameters;

verus! {

/// Reason for closing a connection
#[derive(Debug, Clone)]
pub enum Close {
    /// Closed by the transport
    Connection(ConnectionClose),
}

/// State of a connection that is still handshaking
#[derive(Debug, Clone)]
pub struct Handshake {
    /// Whether the remote CID has been set by the peer yet
    ///
    /// Always set for servers
    pub rem_cid_set: bool,
    /// Stateless retry token received in the first Initial by a server.
    ///
    /// Must be present in every Initial. Always empty for clients.
    pub expected_token: Vec<u8>,
    /// First cryptographic message
    ///
    /// Only set for clients
    pub client_hello: Option<Vec<u8>>,
}

/// State of a connection that has been closed
#[derive(Debug, Clone)]
pub struct Closed {
    /// Why it was closed
    pub reason: Close,
}

/// The state of a connection
#[derive(Debug, Clone)]
pub enum State {
    /// Handshaking
    Handshake(Handshake),
    /// Closed, and waiting for the peer's acknowledgement of the close
    Closed(Closed),
    /// Draining
    Draining,
    /// Waiting for application to call close so we can dispose of the resources
    Drained,
    /// The handshake is complete
    Established,
}

impl State {
    /// Whether the connection is handshaking
    pub fn is_handshake(&self) -> (r: bool)
        ensures
            r == (self is Handshake),
    {
        match self {
            State::Handshake(_) => true,
            _ => false,
        }
    }

    /// Whether the connection is closed, draining or drained
    pub fn is_closed(&self) -> (r: bool)
        ensures
            r == (self is Closed || self is Draining || self is Drained),
    {
        match self {
            State::Closed(_) | State::Draining | State::Drained => true,
            _ => false,
        }
    }

    /// Whether the connection is drained
    pub fn is_drained(&self) -> (r: bool)
        ensures
            r == (self is Drained),
    {
        match self {
            State::Drained => true,
            _ => false,
        }
    }

    /// The closed state with the given reason
    pub fn closed(reason: Close) -> (r: State)
        ensures
            r == State::Closed(Closed { reason }),
    {
        State::Closed(Closed { reason })
    }
}

/// Reasons why a connection might be lost
#[derive(Debug, Clone, PartialEq, Eq)]
pub enum ConnectionError {
    /// The peer is unable to continue processing this connection, usually due to having
    /// restarted
    Reset,
    /// The peer violated the QUIC specification as understood by this implementation
    TransportError(TransportError),
    /// The peer doesn't implement any supported version
    VersionMismatch,
    /// The peer's QUIC stack aborted the connection automatically
    ConnectionClosed(ConnectionClose),
    /// The peer closed the connection
    ApplicationClosed(ApplicationClose),
    /// Communication with the peer has lapsed for longer than the negotiated idle timeout
    TimedOut,
    /// The local application closed the connection
    LocallyClosed,
    /// The connection could not be created because not enough of the CID space is available
    CidsExhausted,
}

/// Events of interest to the application
#[derive(Debug)]
pub enum Event {
    /// The connection was lost
    ///
    /// Emitted if the peer closes the connection or an error is encountered.
    ConnectionLost {
        /// Reason that the connection was closed
        reason: ConnectionError,
    },
    /// Stream events
    Stream(StreamEvent),
}

/// Errors that can arise when sending a datagram
#[derive(Debug, Clone, PartialEq, Eq)]
pub enum SendDatagramError {
    /// The peer does not support receiving datagram frames
    UnsupportedByPeer,
    /// Datagram support is disabled locally
    Disabled,
    /// The datagram is larger than the connection can currently accommodate
    TooLarge,
    /// Previously queued datagrams leave no room for this one; it is handed back
    Blocked(Vec<u8>),
}

/// The peer's maximum ACK delay, in nanoseconds (saturating at `u64::MAX`): its
/// `max_ack_delay` parameter is in milliseconds
pub fn get_max_ack_delay(params: &TransportParameters) -> (r: u64)
    ensures
        r == if params.max_ack_delay@ * 1_000_000 <= u64::MAX {
            params.max_ack_delay@ * 1_000_000
        } else {
            u64::MAX as int
        },
{
    let ms = params.max_ack_delay.into_inner();
    if ms <= u64::MAX / 1_000_000 {
        ms * 1_000_000
    } else {
        u64::MAX
    }
}

impl Close {
    /// The close reported for a transport error: its reason, encoded as UTF-8
    pub fn from_transport_error(e: &TransportError) -> (r: Close)
        ensures
            r matches Close::Connection(c) && c.reason@ == vstd::utf8::encode_utf8(e.reason@),
    {
        Close::Connection(ConnectionClose { reason: e.reason.as_str().as_bytes_vec() })
    }
}

/// Whether the payload of a version negotiation packet, read as 4-byte big-endian versions,
/// offers `version`
pub open spec fn spec_version_offered(payload: Seq<u8>, version: u32) -> bool {
    exists|i: int|
        0 <= i && 4 * i + 4 <= payload.len() && #[trigger] from_be32(
            payload.subrange(4 * i, 4 * i + 4),
        ) == version
}

/// Whether the payload of a version negotiation packet offers `version`
pub fn version_offered(payload: &[u8], version: u32) -> (r: bool)
    ensures
        r == spec_version_offered(payload@, version),
{
    let n = payload.len();
    let mut i: usize = 0;
    while i < n && n - i >= 4
        invariant
            n == payload@.len(),
            i % 4 == 0,
            i <= n,
            forall|j: int|
                0 <= j && 4 * j + 4 <= i ==> #[trigger] from_be32(payload@.subrange(4 * j, 4 * j + 4))
                    != version,
        decreases n + 4 - i,
    {
        let v = get_u32(payload, i);
        if v == version {
            assert(from_be32(payload@.subrange(4 * (i / 4) as int, 4 * (i / 4) + 4)) == version);
            return true;
        }
        i = i + 4;
    }
    proof {
        if spec_version_offered(payload@, version) {
            let j = choose|j: int|
                0 <= j && 4 * j + 4 <= payload@.len() && #[trigger] from_be32(
                    payload@.subrange(4 * j, 4 * j + 4),
                ) == version;
            assert(4 * j + 4 <= i);
        }
    }
    false
}

/// Processing of a version negotiation packet received during the handshake, after
/// `total_authed_packets` packets were authenticated: ignored after the first packet, or if it
/// offers our `version`; otherwise the connection fails with a version mismatch
pub fn handle_version_negotiate(total_authed_packets: u64, payload: &[u8], version: u32) -> (r:
    Result<(), ConnectionError>)
    ensures
        total_authed_packets > 1 || spec_version_offered(payload@, version) ==> r is Ok,
        !(total_authed_packets > 1 || spec_version_offered(payload@, version)) ==> r
            == Err::<(), ConnectionError>(ConnectionError::VersionMismatch),
{
    if total_authed_packets > 1 {
        return Ok(());
    }
    if version_offered(payload, version) {
        return Ok(());
    }
    Err(ConnectionError::VersionMismatch)
}

/// The state a connection moves to when packet processing fails with `err`: closed for a
/// transport error or a close by the peer's transport, drained after a stateless reset, and
/// draining after a version mismatch
pub fn state_after_error(err: &ConnectionError) -> (r: State)
    requires
        err is TransportError || err is ConnectionClosed || err is Reset || err is VersionMismatch,
    ensures
        err matches ConnectionError::TransportError(e) ==> (r matches State::Closed(c) && c.reason
            matches Close::Connection(cc) && cc.reason@ == vstd::utf8::encode_utf8(e.reason@)),
        err matches ConnectionError::ConnectionClosed(cc) ==> (r matches State::Closed(c)
            && c.reason matches Close::Connection(cc2) && cc2.reason@ == cc.reason@),
        err is Reset ==> r is Drained,
        err is VersionMismatch ==> r is Draining,
{
    match err {
        ConnectionError::ConnectionClosed(reason) => {
            let copy = reason.reason.clone();
            proof {
                assert(copy@ =~= reason.reason@);
            }
            State::closed(Close::Connection(ConnectionClose { reason: copy }))
        },
        ConnectionError::TransportError(e) => State::closed(Close::from_transport_error(e)),
        ConnectionError::Reset => State::Drained,
        _ => State::Draining,
    }
}

/// What follows a change of state from `was_closed`/`was_drained` to `state`
#[derive(Debug, Copy, Clone, PartialEq, Eq, Structural)]
pub struct CloseEffects {
    /// Stop all timers: the connection just closed
    pub close_common: bool,
    /// Start the close timer: it just closed and is not drained
    pub set_close_timer: bool,
    /// Tell the endpoint the connection is drained, and stop the close timer
    pub drained: bool,
}

/// The effects of moving from a state that was closed or drained or not to `state`
pub fn close_effects(was_closed: bool, was_drained: bool, state: &State) -> (r: CloseEffects)
    ensures
        r.close_common == (!was_closed && (state is Closed || state is Draining || state is Drained)),
        r.set_close_timer == (r.close_common && !(state is Drained)),
        r.drained == (!was_drained && state is Drained),
{
    let closed = state.is_closed();
    let drained = state.is_drained();
    let close_common = !was_closed && closed;
    CloseEffects {
        close_common,
        set_close_timer: close_common && !drained,
        drained: !was_drained && drained,
    }
}

/// What to do with a received packet
#[derive(Debug, Clone, PartialEq, Eq)]
pub enum PacketDisposition {
    /// The connection fails with this error
    Fail(ConnectionError),
    /// The packet is discarded
    Discard,
    /// The packet is processed
    Process,
}

/// The decision on a received packet: a stateless reset resets the connection; a packet that
/// failed to decrypt with a transport error fails it; a possible duplicate, a short packet
/// during the handshake, or an Initial packet whose token differs from the expected retry token
/// at a handshaking server is discarded; any other packet is processed
pub fn packet_disposition(
    stateless_reset: bool,
    decrypt_error: Option<TransportError>,
    duplicate: bool,
    handshaking: bool,
    short_header: bool,
    server_token_mismatch: bool,
) -> (r: PacketDisposition)
    ensures
        stateless_reset ==> r == PacketDisposition::Fail(ConnectionError::Reset),
        !stateless_reset && decrypt_error is Some ==> r == PacketDisposition::Fail(
            ConnectionError::TransportError(decrypt_error->Some_0),
        ),
        !stateless_reset && decrypt_error is None && (duplicate || (handshaking && short_header)
            || server_token_mismatch) ==> r == PacketDisposition::Discard,
        !stateless_reset && decrypt_error is None && !(duplicate || (handshaking && short_header)
            || server_token_mismatch) ==> r == PacketDisposition::Process,
{
    if stateless_reset {
        return PacketDisposition::Fail(ConnectionError::Reset);
    }
    match decrypt_error {
        Some(e) => PacketDisposition::Fail(ConnectionError::TransportError(e)),
        None => {
            if duplicate || (handshaking && short_header) || server_token_mismatch {
                PacketDisposition::Discard
            } else {
                PacketDisposition::Process
            }
        },
    }
}

/// Probe timeout for packet number space `space`: the path's PTO base, plus the peer's maximum
/// ACK delay in the Data space
pub fn pto(space: SpaceId, rtt: &RttEstimator, max_ack_delay_for_pto: u64) -> (r: u64)
    requires
        rtt.spec_get() + (if 4 * rtt.spec_var() > crate::TIMER_GRANULARITY {
            4 * rtt.spec_var()
        } else {
            crate::TIMER_GRANULARITY as int
        }) + max_ack_delay_for_pto <= u64::MAX,
    ensures
        r == rtt.spec_get() + (if 4 * rtt.spec_var() > crate::TIMER_GRANULARITY {
            4 * rtt.spec_var()
        } else {
            crate::TIMER_GRANULARITY as int
        }) + (if space == SpaceId::Data {
            max_ack_delay_for_pto as int
        } else {
            0
        }),
{
    let max_ack_delay: u64 = match space {
        SpaceId::Initial | SpaceId::Handshake => 0,
        SpaceId::Data => max_ack_delay_for_pto,
    };
    rtt.pto_base() + max_ack_delay
}

/// The largest datagram that may be sent: what fits in a packet of the path's MTU `mtu` after
/// the predicted 1-RTT packet overhead `overhead` and the frame's own bound, and within the
/// peer's limit on DATAGRAM frames; `None` if the peer does not accept them
pub fn max_datagram_size(mtu: u16, overhead: usize, peer_max_frame_size: Option<VarInt>) -> (r:
    Option<usize>)
    requires
        overhead + DATAGRAM_SIZE_BOUND <= mtu,
    ensures
        match peer_max_frame_size {
            None => r is None,
            Some(limit) => {
                let room = mtu - overhead - DATAGRAM_SIZE_BOUND;
                let allowed = if limit@ > DATAGRAM_SIZE_BOUND {
                    limit@ - DATAGRAM_SIZE_BOUND
                } else {
                    0
                };
                r == Some(
                    if allowed < room {
                        allowed as usize
                    } else {
                        room as usize
                    },
                )
            },
        },
{
    let max_size = (mtu as usize) - overhead - DATAGRAM_SIZE_BOUND;
    let limit = match peer_max_frame_size {
        Some(l) => l.into_inner().saturating_sub(DATAGRAM_SIZE_BOUND as u64),
        None => {
            return None;
        },
    };
    if limit < max_size as u64 {
        Some(limit as usize)
    } else {
        Some(max_size)
    }
}

/// Queue handshake data `outgoing`, which the TLS session wrote for packet number space
/// `space_id`, in `space`: it goes out as a CRYPTO frame at the space's current crypto offset,
/// which advances by its length, and a client keeps its first Initial data as the ClientHello
pub fn queue_crypto(
    space_id: SpaceId,
    space: &mut PacketSpace,
    state: &mut State,
    side: Side,
    outgoing: Vec<u8>,
)
    requires
        old(space).crypto_offset + outgoing@.len() <= u64::MAX,
    ensures
        final(space).crypto_offset == old(space).crypto_offset + outgoing@.len(),
        final(space).pending.crypto@ == old(space).pending.crypto@.push(
            Crypto { offset: old(space).crypto_offset, data: outgoing },
        ),
        final(space).pending.new_cids@ == old(space).pending.new_cids@,
        final(space).pending.retire_cids@ == old(space).pending.retire_cids@,
        final(space).pending.ack_frequency == old(space).pending.ack_frequency,
        final(space).pending.handshake_done == old(space).pending.handshake_done,
        final(space).pending.max_stream_id == old(space).pending.max_stream_id,
        final(space).next_packet_number == old(space).next_packet_number,
        final(space).in_flight == old(space).in_flight,
        match *old(state) {
            State::Handshake(h) => match *final(state) {
                State::Handshake(h2) => {
                    &&& h2.rem_cid_set == h.rem_cid_set
                    &&& h2.expected_token@ == h.expected_token@
                    &&& if space_id == SpaceId::Initial && old(space).crypto_offset == 0 && side
                        == Side::Client {
                        h2.client_hello matches Some(c) && c@ == outgoing@
                    } else {
                        h2.client_hello == h.client_hello
                    }
                },
                _ => false,
            },
            _ => *final(state) == *old(state),
        },
{
    let offset = space.crypto_offset;
    let is_first_initial = match space_id {
        SpaceId::Initial => offset == 0,
        _ => false,
    };
    let is_client = match side {
        Side::Client => true,
        Side::Server => false,
    };
    if is_first_initial && is_client {
        if let State::Handshake(h) = state {
            let hello = outgoing.clone();
            proof {
                assert(hello@ =~= outgoing@);
            }
            h.client_hello = Some(hello);
        }
    }
    space.crypto_offset = offset + outgoing.len() as u64;
    space.pending.crypto.push(Crypto { offset, data: outgoing });
}

/// Total length of the pieces of a flight of handshake data
pub open spec fn spec_flight_len(flight: Seq<Vec<u8>>) -> nat
    decreases flight.len(),
{
    if flight.len() == 0 {
        0
    } else {
        spec_flight_len(flight.drop_last()) + flight.last()@.len()
    }
}

/// A prefix of a flight is no longer than the flight
proof fn lemma_flight_prefix_len(flight: Seq<Vec<u8>>, i: int)
    requires
        0 <= i <= flight.len(),
    ensures
        spec_flight_len(flight.take(i)) <= spec_flight_len(flight),
    decreases flight.len() - i,
{
    if i < flight.len() {
        lemma_flight_prefix_len(flight, i + 1);
        assert(flight.take(i + 1).drop_last() =~= flight.take(i));
    } else {
        assert(flight.take(i) =~= flight);
    }
}

/// The CRYPTO frames `frames`, from index `from` on, carry data that follows on without gap or
/// overlap from offset `start` to offset `end`, none of them empty
pub open spec fn spec_crypto_contiguous(frames: Seq<Crypto>, from: int, start: u64, end: u64) -> bool {
    &&& forall|k: int| from <= k < frames.len() ==> #[trigger] frames[k].data@.len() > 0
    &&& forall|k: int|
        from <= k < frames.len() - 1 ==> #[trigger] frames[k].offset + frames[k].data@.len()
            == frames[k + 1].offset
    &&& frames.len() > from ==> frames[from].offset == start && frames.last().offset
        + frames.last().data@.len() == end
    &&& frames.len() <= from ==> start == end
}

/// Queue a flight of handshake data that the TLS session wrote for packet number space
/// `space_id`, piece by piece: every non-empty piece goes out as a CRYPTO frame, and the
/// frames follow on from the space's crypto offset without gap or overlap, to the new offset;
/// a client keeps its first Initial data as the ClientHello
pub fn queue_crypto_flight(
    space_id: SpaceId,
    space: &mut PacketSpace,
    state: &mut State,
    side: Side,
    flight: &Vec<Vec<u8>>,
)
    requires
        old(space).crypto_offset + spec_flight_len(flight@) <= u64::MAX,
    ensures
        final(space).crypto_offset == old(space).crypto_offset + spec_flight_len(flight@),
        final(space).pending.crypto@.len() >= old(space).pending.crypto@.len(),
        final(space).pending.crypto@.subrange(0, old(space).pending.crypto@.len() as int)
            == old(space).pending.crypto@,
        spec_crypto_contiguous(
            final(space).pending.crypto@,
            old(space).pending.crypto@.len() as int,
            old(space).crypto_offset,
            final(space).crypto_offset,
        ),
        final(space).pending.new_cids@ == old(space).pending.new_cids@,
        final(space).pending.retire_cids@ == old(space).pending.retire_cids@,
        final(space).pending.ack_frequency == old(space).pending.ack_frequency,
        final(space).next_packet_number == old(space).next_packet_number,
        match *old(state) {
            State::Handshake(h) => match *final(state) {
                State::Handshake(h2) => {
                    &&& h2.rem_cid_set == h.rem_cid_set
                    &&& h2.expected_token@ == h.expected_token@
                    &&& if space_id == SpaceId::Initial && old(space).crypto_offset == 0 && side
                        == Side::Client && final(space).pending.crypto@.len()
                        > old(space).pending.crypto@.len() {
                        h2.client_hello matches Some(c) && c@ == final(space).pending.crypto@[old(
                            space,
                        ).pending.crypto@.len() as int].data@
                    } else {
                        h2.client_hello == h.client_hello
                    }
                },
                _ => false,
            },
            _ => *final(state) == *old(state),
        },
{
    let ghost l0 = space.pending.crypto@.len() as int;
    let ghost o0 = space.crypto_offset;
    let ghost c0 = space.pending.crypto@;
    let ghost s0 = *state;
    let ghost hello = space_id == SpaceId::Initial && o0 == 0 && side == Side::Client;
    let mut i: usize = 0;
    while i < flight.len()
        invariant
            i <= flight@.len(),
            o0 + spec_flight_len(flight@) <= u64::MAX,
            space.crypto_offset == o0 + spec_flight_len(flight@.take(i as int)),
            space.pending.crypto@.len() >= l0,
            space.pending.crypto@.subrange(0, l0) == c0,
            spec_crypto_contiguous(space.pending.crypto@, l0, o0, space.crypto_offset),
            space.pending.crypto@.len() > l0 ==> space.crypto_offset > o0,
            space.pending.new_cids@ == old(space).pending.new_cids@,
            space.pending.retire_cids@ == old(space).pending.retire_cids@,
            space.pending.ack_frequency == old(space).pending.ack_frequency,
            space.next_packet_number == old(space).next_packet_number,
            l0 == old(space).pending.crypto@.len(),
            o0 == old(space).crypto_offset,
            s0 == *old(state),
            hello == (space_id == SpaceId::Initial && o0 == 0 && side == Side::Client),
            match s0 {
                State::Handshake(h) => match *state {
                    State::Handshake(h2) => {
                        &&& h2.rem_cid_set == h.rem_cid_set
                        &&& h2.expected_token@ == h.expected_token@
                        &&& if hello && space.pending.crypto@.len() > l0 {
                            h2.client_hello matches Some(c) && c@ == space.pending.crypto@[l0].data@
                        } else {
                            h2.client_hello == h.client_hello
                        }
                    },
                    _ => false,
                },
                _ => *state == s0,
            },
        decreases flight@.len() - i,
    {
        proof {
            assert(flight@.take(i + 1).drop_last() =~= flight@.take(i as int));
            lemma_flight_prefix_len(flight@, i + 1);
        }
        let piece = flight[i].clone();
        proof {
            assert(piece@ =~= flight@[i as int]@);
        }
        if piece.len() > 0 {
            let ghost pre = space.pending.crypto@;
            queue_crypto(space_id, space, state, side, piece);
            proof {
                assert(space.pending.crypto@.subrange(0, l0) =~= pre.subrange(0, l0));
            }
        }
        i = i + 1;
    }
    proof {
        assert(flight@.take(i as int) =~= flight@);
    }
}

/// The state after a failure with `err`, as `state_after_error` gives it
pub open spec fn spec_error_state(err: ConnectionError, r: State) -> bool {
    &&& err matches ConnectionError::TransportError(e) ==> (r matches State::Closed(c) && c.reason
        matches Close::Connection(cc) && cc.reason@ == vstd::utf8::encode_utf8(e.reason@))
    &&& err matches ConnectionError::ConnectionClosed(cc) ==> (r matches State::Closed(c)
        && c.reason matches Close::Connection(cc2) && cc2.reason@ == cc.reason@)
    &&& err is Reset ==> r is Drained
    &&& err is VersionMismatch ==> r is Draining
}

/// Whether a state counts as closed: closed, draining or drained
pub open spec fn spec_is_closed(s: State) -> bool {
    s is Closed || s is Draining || s is Drained
}

/// Whether the stream state has an event to report
pub open spec fn spec_streams_pending(s: StreamsState) -> bool {
    s.opened[0] || s.opened[1] || s.events@.len() > 0
}

/// The part of a connection that packet processing failures and polling act on: its state,
/// the error it failed with, the events for the application and for the endpoint, and the
/// deadline of its close timer, in nanoseconds
pub struct ConnectionCore {
    /// The state of the connection
    pub state: State,
    /// The error the connection failed with, until the application is told
    pub error: Option<ConnectionError>,
    /// Events for the application
    pub events: VecDeque<Event>,
    /// Events for the endpoint
    pub endpoint_events: VecDeque<EndpointEvent>,
    /// When the close timer fires, if it is running
    pub close_timer: Option<u64>,
}

impl ConnectionCore {
    /// A connection in `state`, with no error, no events and no close timer
    pub fn new(state: State) -> (r: ConnectionCore)
        ensures
            r.state == state,
            r.error is None,
            r.events@.len() == 0,
            r.endpoint_events@.len() == 0,
            r.close_timer is None,
    {
        ConnectionCore {
            state,
            error: None,
            events: VecDeque::new(),
            endpoint_events: VecDeque::new(),
            close_timer: None,
        }
    }

    /// A connection on `side` that starts its handshake: a server has its remote CID already,
    /// no retry token is expected yet and no ClientHello is kept
    pub fn handshaking(side: Side) -> (r: ConnectionCore)
        ensures
            r.state matches State::Handshake(h) && h.rem_cid_set == (side == Side::Server)
                && h.expected_token@.len() == 0 && h.client_hello is None,
            r.error is None,
            r.events@.len() == 0,
            r.endpoint_events@.len() == 0,
            r.close_timer is None,
    {
        let server = match side {
            Side::Server => true,
            Side::Client => false,
        };
        ConnectionCore::new(
            State::Handshake(
                Handshake { rem_cid_set: server, expected_token: Vec::new(), client_hello: None },
            ),
        )
    }

    /// Take in the failure of packet processing with `err` at `now`, with `pto` the probe
    /// timeout: the error is recorded and the state moves as `state_after_error` says; a
    /// connection that just closed stops its timers and, unless drained, starts its close timer
    /// at three probe timeouts; one that just drained tells the endpoint, once, and stops its
    /// close timer
    pub fn on_packet_error(&mut self, err: ConnectionError, now: u64, pto: u64)
        requires
            err is TransportError || err is ConnectionClosed || err is Reset || err is VersionMismatch,
            now + 3 * pto <= u64::MAX,
        ensures
            final(self).error == Some(err),
            spec_error_state(err, final(self).state),
            final(self).events@ == old(self).events@,
            ({
                let close_common = !spec_is_closed(old(self).state) && spec_is_closed(
                    final(self).state,
                );
                let set_close_timer = close_common && !(final(self).state is Drained);
                let drained = !(old(self).state is Drained) && final(self).state is Drained;
                let t1 = if close_common {
                    None
                } else {
                    old(self).close_timer
                };
                let t2 = if set_close_timer {
                    Some((now + 3 * pto) as u64)
                } else {
                    t1
                };
                &&& final(self).close_timer == if drained {
                    None
                } else {
                    t2
                }
                &&& final(self).endpoint_events@ == if drained {
                    old(self).endpoint_events@.push(EndpointEvent::Drained)
                } else {
                    old(self).endpoint_events@
                }
            }),
    {
        let was_closed = self.state.is_closed();
        let was_drained = self.state.is_drained();
        let state = state_after_error(&err);
        self.error = Some(err);
        self.state = state;
        let effects = close_effects(was_closed, was_drained, &self.state);
        if effects.close_common {
            self.close_timer = None;
        }
        if effects.set_close_timer {
            self.close_timer = Some(now + 3 * pto);
        }
        if effects.drained {
            self.endpoint_events.push_back(EndpointEvent::Drained);
            self.close_timer = None;
        }
    }

    /// The next event for the application: a queued event first, then one of the streams,
    /// then the loss of the connection if it failed, which is reported once
    pub fn poll(&mut self, streams: &mut StreamsState) -> (r: Option<Event>)
        requires
            old(streams).opened@.len() == 2,
            old(streams).data_sent <= old(streams).max_data,
            old(streams).unacked_data <= old(streams).send_window,
            !old(streams).opened[0] && !old(streams).opened[1] && old(streams).data_sent
                < old(streams).max_data && old(streams).unacked_data < old(streams).send_window
                ==> forall|i: int|
                0 <= i < old(streams).connection_blocked@.len() ==> !(
                #[trigger] old(streams).send@.contains_key(old(streams).connection_blocked@[i].0)
                    && old(streams).send@[old(streams).connection_blocked@[i].0] is Some),
        ensures
            final(self).state == old(self).state,
            final(self).endpoint_events@ == old(self).endpoint_events@,
            final(self).close_timer == old(self).close_timer,
            old(self).events@.len() > 0 ==> {
                &&& r == Some(old(self).events@[0])
                &&& final(self).events@ == old(self).events@.drop_first()
                &&& final(self).error == old(self).error
                &&& *final(streams) == *old(streams)
            },
            old(self).events@.len() == 0 && spec_streams_pending(*old(streams)) ==> {
                &&& r matches Some(Event::Stream(_))
                &&& final(self).events@.len() == 0
                &&& final(self).error == old(self).error
            },
            old(self).events@.len() == 0 && !spec_streams_pending(*old(streams)) ==> {
                &&& r == match old(self).error {
                    Some(e) => Some(Event::ConnectionLost { reason: e }),
                    None => None,
                }
                &&& final(self).error is None
                &&& final(self).events@.len() == 0
            },
    {
        if self.events.len() > 0 {
            let e = self.events.pop_front();
            proof {
                assert(self.events@ =~= old(self).events@.drop_first());
            }
            return e;
        }
        if let Some(event) = streams.poll() {
            return Some(Event::Stream(event));
        }
        match self.error.take() {
            Some(err) => Some(Event::ConnectionLost { reason: err }),
            None => None,
        }
    }
}

} // verus!
