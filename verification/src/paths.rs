//! Round-trip time estimation, in-flight accounting and path validation responses.
use vstd::prelude::*;

use crate::config::TransportConfig;
use crate::congestion::ControllerFactory;
use crate::mtud::{EnabledMtuDiscovery, MtuDiscovery, Phase};
use crate::packet_space::{spec_first_after, PacketSpace, MAX_UNACKED_NON_ACK_ELICITING_TAIL};
use crate::shared::{spec_addr, SocketAddr};
use crate::spaces::SentPacket;
use crate::{MAX_UDP_PAYLOAD, TIMER_GRANULARITY};

verus! {

/// RTT estimation for a particular network path; durations in nanoseconds
#[derive(Debug, Copy, Clone, PartialEq, Eq, Structural)]
pub struct RttEstimator {
    /// The most recent RTT measurement made when receiving an ack for a previously unacked packet
    latest: u64,
    /// The smoothed RTT of the connection, computed as described in RFC6298
    smoothed: Option<u64>,
    /// The RTT variance, computed as described in RFC6298
    var: u64,
}

impl RttEstimator {
    /// The latest measurement
    pub closed spec fn spec_latest(self) -> u64 {
        self.latest
    }

    /// The smoothed estimate, once there is one
    pub closed spec fn spec_smoothed(self) -> Option<u64> {
        self.smoothed
    }

    /// The variance
    pub closed spec fn spec_var(self) -> u64 {
        self.var
    }

    /// The current best estimate: the smoothed RTT once there is one, else the latest sample
    pub open spec fn spec_get(self) -> u64 {
        match self.spec_smoothed() {
            Some(s) => s,
            None => self.spec_latest(),
        }
    }

    /// An estimator that starts from `initial_rtt`, with half of it as variance
    pub fn new(initial_rtt: u64) -> (r: RttEstimator)
        ensures
            r.spec_latest() == initial_rtt,
            r.spec_smoothed() is None,
            r.spec_var() == initial_rtt / 2,
    {
        RttEstimator { latest: initial_rtt, smoothed: None, var: initial_rtt / 2 }
    }

    /// PTO computed as described in RFC9002#6.2.1: the estimate plus the larger of four times the
    /// variance and the timer granularity
    pub fn pto_base(&self) -> (r: u64)
        requires
            self.spec_get() + (if 4 * self.spec_var() > TIMER_GRANULARITY {
                4 * self.spec_var()
            } else {
                TIMER_GRANULARITY as int
            }) <= u64::MAX,
        ensures
            r == self.spec_get() + (if 4 * self.spec_var() > TIMER_GRANULARITY {
                4 * self.spec_var()
            } else {
                TIMER_GRANULARITY as int
            }),
    {
        let v: u64 = if self.var > TIMER_GRANULARITY / 4 {
            4 * self.var
        } else {
            TIMER_GRANULARITY
        };
        self.get() + v
    }

    /// The current best RTT estimation.
    pub fn get(&self) -> (r: u64)
        ensures
            r == self.spec_get(),
    {
        match self.smoothed {
            Some(s) => s,
            None => self.latest,
        }
    }
}

/// Summary statistics of packets that have been sent on a particular path, but which have not
/// yet been acked or deemed lost
#[derive(Debug, Copy, Clone, PartialEq, Eq, Structural)]
pub struct InFlight {
    /// Sum of the sizes of all sent packets considered "in flight" by congestion control
    pub bytes: u64,
    /// Number of packets in flight containing frames other than ACK and PADDING
    pub ack_eliciting: u64,
}

impl InFlight {
    /// Nothing in flight
    pub fn new() -> (r: InFlight)
        ensures
            r == (InFlight { bytes: 0, ack_eliciting: 0 }),
    {
        InFlight { bytes: 0, ack_eliciting: 0 }
    }

    /// Account for `packet` being sent
    pub fn insert(&mut self, packet: &SentPacket)
        requires
            old(self).bytes + packet.size <= u64::MAX,
            old(self).ack_eliciting < u64::MAX,
        ensures
            final(self).bytes == old(self).bytes + packet.size,
            final(self).ack_eliciting == old(self).ack_eliciting + (if packet.ack_eliciting {
                1int
            } else {
                0
            }),
    {
        self.bytes = self.bytes + packet.size as u64;
        let e: u64 = if packet.ack_eliciting {
            1
        } else {
            0
        };
        self.ack_eliciting = self.ack_eliciting + e;
    }
}

/// A PATH_RESPONSE to send
#[derive(Debug, Copy, Clone)]
pub struct PathResponse {
    /// The token of the PATH_CHALLENGE being answered
    pub token: u64,
    /// The address the corresponding PATH_CHALLENGE was received from
    pub remote: SocketAddr,
}

/// PATH_RESPONSE frames waiting to be sent, the most recent last
pub struct PathResponses {
    pending: Vec<PathResponse>,
}

impl PathResponses {
    /// The waiting responses, the most recent last
    pub closed spec fn spec_pending(&self) -> Seq<PathResponse> {
        self.pending@
    }

    /// No responses waiting
    pub fn new() -> (r: PathResponses)
        ensures
            r.spec_pending().len() == 0,
    {
        PathResponses { pending: Vec::new() }
    }

    /// Take the most recent response if it is to an address other than `remote`
    pub fn pop_off_path(&mut self, remote: &SocketAddr) -> (r: Option<(u64, SocketAddr)>)
        ensures
            old(self).spec_pending().len() == 0 || spec_addr(old(self).spec_pending().last().remote)
                == spec_addr(*remote) ==> r is None && final(self).spec_pending() == old(
                self,
            ).spec_pending(),
            old(self).spec_pending().len() > 0 && spec_addr(old(self).spec_pending().last().remote)
                != spec_addr(*remote) ==> r == Some(
                (old(self).spec_pending().last().token, old(self).spec_pending().last().remote),
            ) && final(self).spec_pending() == old(self).spec_pending().drop_last(),
    {
        let n = self.pending.len();
        if n == 0 {
            return None;
        }
        let response = self.pending[n - 1];
        if response.remote.same_as(remote) {
            return None;
        }
        self.pending.pop();
        Some((response.token, response.remote))
    }

    /// Take the most recent response if it is to `remote`
    pub fn pop_on_path(&mut self, remote: &SocketAddr) -> (r: Option<u64>)
        ensures
            old(self).spec_pending().len() == 0 || spec_addr(old(self).spec_pending().last().remote)
                != spec_addr(*remote) ==> r is None && final(self).spec_pending() == old(
                self,
            ).spec_pending(),
            old(self).spec_pending().len() > 0 && spec_addr(old(self).spec_pending().last().remote)
                == spec_addr(*remote) ==> r == Some(old(self).spec_pending().last().token)
                && final(self).spec_pending() == old(self).spec_pending().drop_last(),
    {
        let n = self.pending.len();
        if n == 0 {
            return None;
        }
        let response = self.pending[n - 1];
        if !response.remote.same_as(remote) {
            return None;
        }
        self.pending.pop();
        Some(response.token)
    }

    /// Whether no response is waiting
    pub fn is_empty(&self) -> (r: bool)
        ensures
            r == (self.spec_pending().len() == 0),
    {
        self.pending.len() == 0
    }
}

/// Description of a particular network path, with its congestion controller of type `C`
///
/// Durations are in nanoseconds, times in nanoseconds since an arbitrary epoch.
pub struct PathData<C> {
    /// The peer's address on this path
    pub remote: SocketAddr,
    /// Total size of all UDP datagrams sent on this path
    pub total_sent: u64,
    /// Total size of all UDP datagrams received on this path
    pub total_recvd: u64,
    /// Whether we're certain the peer can both send and receive on this address
    pub validated: bool,
    /// Round-trip time estimation
    pub rtt: RttEstimator,
    /// The state of the MTU discovery process
    pub mtud: MtuDiscovery,
    /// Packets in flight on this path
    pub in_flight: InFlight,
    /// Congestion controller state
    pub congestion: C,
    /// The token of an outstanding PATH_CHALLENGE
    pub challenge: Option<u64>,
    /// Whether a PATH_CHALLENGE is waiting to be sent
    pub challenge_pending: bool,
    /// Number of the first packet sent on this path
    pub first_packet: Option<u64>,
    /// Whether we're enabling ECN on outgoing packets
    pub sending_ecn: bool,
}

/// The MTU discovery state a new path starts with: discovery from the configured initial MTU,
/// enabled where the configuration asks for it and the path allows it
pub open spec fn spec_initial_mtud(config: TransportConfig, allow_mtud: bool) -> MtuDiscovery {
    let initial = if config.initial_mtu > config.min_mtu {
        config.initial_mtu
    } else {
        config.min_mtu
    };
    match config.mtu_discovery_config {
        Some(c) if allow_mtud => MtuDiscovery {
            current_mtu: initial,
            state: Some(
                EnabledMtuDiscovery {
                    phase: Phase::Initial,
                    peer_max_udp_payload_size: MAX_UDP_PAYLOAD,
                    config: c,
                },
            ),
        },
        _ => MtuDiscovery { current_mtu: initial, state: None },
    }
}

impl<C> PathData<C> {
    /// A fresh path to `remote`, with a congestion controller that `factory` builds at `now`
    /// for the initial MTU
    pub fn new<F: ControllerFactory<Output = C>>(
        remote: SocketAddr,
        allow_mtud: bool,
        peer_max_udp_payload_size: Option<u16>,
        now: u64,
        validated: bool,
        config: &TransportConfig,
        factory: &F,
    ) -> (r: PathData<C>)
        ensures
            r.remote == remote,
            r.validated == validated,
            r.total_sent == 0,
            r.total_recvd == 0,
            r.rtt.spec_latest() == config.initial_rtt,
            r.rtt.spec_smoothed() is None,
            r.rtt.spec_var() == config.initial_rtt / 2,
            r.mtud == spec_initial_mtud(*config, allow_mtud),
            r.in_flight == (InFlight { bytes: 0, ack_eliciting: 0 }),
            r.challenge is None,
            !r.challenge_pending,
            r.first_packet is None,
            r.sending_ecn,
    {
        let initial_mtu = config.get_initial_mtu();
        let congestion = factory.build(now, initial_mtu);
        let mtud = match config.mtu_discovery_config {
            Some(c) if allow_mtud => MtuDiscovery::new(
                initial_mtu,
                config.min_mtu,
                peer_max_udp_payload_size,
                c,
            ),
            _ => MtuDiscovery::disabled(initial_mtu, config.min_mtu),
        };
        PathData {
            remote,
            validated,
            total_sent: 0,
            total_recvd: 0,
            rtt: RttEstimator::new(config.initial_rtt),
            mtud,
            in_flight: InFlight::new(),
            congestion,
            challenge: None,
            challenge_pending: false,
            first_packet: None,
            sending_ecn: true,
        }
    }

    /// Whether we're a server that hasn't validated the peer's address and hasn't received
    /// enough data from the peer to permit sending `bytes_to_send` additional bytes: an
    /// unvalidated path may carry at most three times what it received
    pub fn anti_amplification_blocked(&self, bytes_to_send: u64) -> (r: bool)
        requires
            self.total_recvd * 3 <= u64::MAX,
            self.total_sent + bytes_to_send <= u64::MAX,
        ensures
            r == (!self.validated && self.total_recvd * 3 < self.total_sent + bytes_to_send),
    {
        !self.validated && self.total_recvd * 3 < self.total_sent + bytes_to_send
    }

    /// The path's current MTU
    pub fn current_mtu(&self) -> (r: u16)
        ensures
            r == self.mtud.current_mtu,
    {
        self.mtud.current_mtu()
    }

    /// Account for transmission of `packet` with number `pn` in `space`: the packet counts as
    /// in flight, and what the space forgets no longer does
    pub fn sent(&mut self, pn: u64, packet: SentPacket, space: &mut PacketSpace)
        requires
            old(self).in_flight.bytes + packet.size <= u64::MAX,
            old(self).in_flight.ack_eliciting < u64::MAX,
            ({
                let m = old(space).sent_packets.spec_map();
                let forget = !packet.ack_eliciting && old(space).unacked_non_ack_eliciting_tail
                    > MAX_UNACKED_NON_ACK_ELICITING_TAIL;
                let oldest = spec_first_after(m, old(space).largest_ack_eliciting_sent);
                &&& forget ==> oldest is Some && m[oldest->Some_0].size <= old(space).in_flight
                    && old(space).in_flight - m[oldest->Some_0].size + packet.size <= u64::MAX
                    && m[oldest->Some_0].size <= old(self).in_flight.bytes + packet.size
                &&& !forget ==> old(space).in_flight + packet.size <= u64::MAX
            }),
        ensures
            ({
                let m = old(space).sent_packets.spec_map();
                let forget = !packet.ack_eliciting && old(space).unacked_non_ack_eliciting_tail
                    > MAX_UNACKED_NON_ACK_ELICITING_TAIL;
                let oldest = spec_first_after(m, old(space).largest_ack_eliciting_sent);
                let forgotten = if forget {
                    m[oldest->Some_0].size as int
                } else {
                    0
                };
                &&& final(self).in_flight.bytes == old(self).in_flight.bytes + packet.size
                    - forgotten
                &&& final(self).in_flight.ack_eliciting == old(self).in_flight.ack_eliciting + (
                if packet.ack_eliciting {
                    1int
                } else {
                    0
                })
                &&& final(space).sent_packets.spec_map() == if forget {
                    m.remove(oldest->Some_0).insert(pn, packet)
                } else {
                    m.insert(pn, packet)
                }
                &&& final(space).in_flight == old(space).in_flight + packet.size - forgotten
            }),
            final(self).first_packet == match old(self).first_packet {
                Some(f) => Some(f),
                None => Some(pn),
            },
            final(self).remote == old(self).remote,
            final(self).total_sent == old(self).total_sent,
            final(self).total_recvd == old(self).total_recvd,
            final(self).validated == old(self).validated,
            final(self).rtt == old(self).rtt,
            final(self).mtud == old(self).mtud,
    {
        self.in_flight.insert(&packet);
        if self.first_packet.is_none() {
            self.first_packet = Some(pn);
        }
        let forgotten = space.sent(pn, packet);
        self.in_flight.bytes = self.in_flight.bytes - forgotten;
    }
}

} // verus!
