//! Path MTU discovery: a binary search for the largest UDP payload the path carries.
use vstd::prelude::*;

use crate::config::MtuDiscoveryConfig;
use crate::packet::SpaceId;
use crate::MAX_UDP_PAYLOAD;

verus! {

/// Number of times a lost probe of one size is sent again before the size is deemed too large
pub const MAX_PROBE_RETRANSMITS: usize = 3;

/// State of an ongoing search
#[derive(Debug, Copy, Clone, PartialEq, Eq, Structural)]
pub struct SearchState {
    /// Packet number of the probe in flight, if any
    pub in_flight_probe: Option<u64>,
    /// Number of times the last probe was lost
    pub lost_probe_count: usize,
    /// Size of the last probe
    pub last_probed_mtu: u16,
    /// Largest size known to work
    pub lower_bound: u16,
    /// Largest size that might work
    pub upper_bound: u16,
    /// Smallest change of size worth another probe
    pub minimum_change: u16,
}

/// The next probe size given the bounds, the last probe and the minimum change: the middle of
/// the bounds, unless it is within `minimum_change` of the last probe, in which case the upper
/// bound if that is at least `minimum_change` above the last probe, else none
pub open spec fn spec_next_probe(lower: u16, upper: u16, last: u16, minimum_change: u16) -> Option<u16> {
    let next = (lower + upper) / 2;
    let diff = if next >= last {
        next - last
    } else {
        last - next
    };
    if diff < minimum_change {
        if upper >= last && upper - last >= minimum_change {
            Some(upper)
        } else {
            None
        }
    } else {
        Some(next as u16)
    }
}

/// A search starting from `lower_bound`, up to the configured upper bound, neither of them above
/// the peer's maximum UDP payload size
pub open spec fn spec_search_new(lower_bound: u16, peer_max_udp_payload_size: u16, config: MtuDiscoveryConfig) -> SearchState {
    let lower = if lower_bound < peer_max_udp_payload_size {
        lower_bound
    } else {
        peer_max_udp_payload_size
    };
    let upper = if config.upper_bound < lower {
        lower
    } else if config.upper_bound > peer_max_udp_payload_size {
        peer_max_udp_payload_size
    } else {
        config.upper_bound
    };
    SearchState {
        in_flight_probe: None,
        lost_probe_count: 0,
        last_probed_mtu: lower,
        lower_bound: lower,
        upper_bound: upper,
        minimum_change: config.minimum_change,
    }
}

/// What polling MTU discovery `e` at time `now` gives, for path MTU `current_mtu` and next packet
/// number `next_pn`: the new state and the size of the probe to send, if any
pub open spec fn spec_mtud_poll(e: EnabledMtuDiscovery, now: u64, current_mtu: u16, next_pn: u64) -> (
    EnabledMtuDiscovery,
    Option<u16>,
) {
    let s = match e.phase {
        Phase::Searching(s) => s,
        _ => spec_search_new(current_mtu, e.peer_max_udp_payload_size, e.config),
    };
    if e.phase is Complete {
        (e, None)
    } else if s.in_flight_probe is Some {
        (EnabledMtuDiscovery { phase: Phase::Searching(s), ..e }, None)
    } else if 0 < s.lost_probe_count < MAX_PROBE_RETRANSMITS {
        (
            EnabledMtuDiscovery {
                phase: Phase::Searching(SearchState { in_flight_probe: Some(next_pn), ..s }),
                ..e
            },
            Some(s.last_probed_mtu),
        )
    } else {
        let succeeded = s.lost_probe_count == 0;
        let lower = if succeeded {
            s.last_probed_mtu
        } else {
            s.lower_bound
        };
        let upper = if succeeded {
            s.upper_bound
        } else {
            (s.last_probed_mtu - 1) as u16
        };
        let s2 = SearchState { lost_probe_count: 0, lower_bound: lower, upper_bound: upper, ..s };
        match spec_next_probe(lower, upper, s.last_probed_mtu, s.minimum_change) {
            Some(x) => (
                EnabledMtuDiscovery {
                    phase: Phase::Searching(
                        SearchState { in_flight_probe: Some(next_pn), last_probed_mtu: x, ..s2 },
                    ),
                    ..e
                },
                Some(x),
            ),
            None => (
                EnabledMtuDiscovery { phase: Phase::Complete((now + e.config.interval) as u64), ..e },
                None,
            ),
        }
    }
}

impl SearchState {
    /// A search starting from `lower_bound`, up to the configured upper bound, neither of them
    /// above the peer's maximum UDP payload size
    pub fn new(lower_bound: u16, peer_max_udp_payload_size: u16, config: &MtuDiscoveryConfig) -> (r:
        SearchState)
        ensures
            r.lower_bound == (if lower_bound < peer_max_udp_payload_size {
                lower_bound
            } else {
                peer_max_udp_payload_size
            }),
            r.upper_bound == (if config.upper_bound < r.lower_bound {
                r.lower_bound
            } else if config.upper_bound > peer_max_udp_payload_size {
                peer_max_udp_payload_size
            } else {
                config.upper_bound
            }),
            r == spec_search_new(lower_bound, peer_max_udp_payload_size, *config),
            r.lower_bound <= r.upper_bound,
            r.last_probed_mtu == r.lower_bound,
            r.in_flight_probe is None,
            r.lost_probe_count == 0,
            r.minimum_change == config.minimum_change,
    {
        let lower = if lower_bound < peer_max_udp_payload_size {
            lower_bound
        } else {
            peer_max_udp_payload_size
        };
        let upper = if config.upper_bound < lower {
            lower
        } else if config.upper_bound > peer_max_udp_payload_size {
            peer_max_udp_payload_size
        } else {
            config.upper_bound
        };
        SearchState {
            in_flight_probe: None,
            lost_probe_count: 0,
            last_probed_mtu: lower,
            lower_bound: lower,
            upper_bound: upper,
            minimum_change: config.minimum_change,
        }
    }

    /// Narrow the bounds by the outcome of the last probe and pick the next size to probe
    ///
    /// A successful probe raises the lower bound to its size; a failed one lowers the upper
    /// bound below its size. A size returned lies between the new bounds.
    pub fn next_mtu_to_probe(&mut self, last_probe_succeeded: bool) -> (r: Option<u16>)
        requires
            old(self).in_flight_probe is None,
            !last_probe_succeeded ==> old(self).last_probed_mtu >= 1,
        ensures
            final(self).lower_bound == if last_probe_succeeded {
                old(self).last_probed_mtu
            } else {
                old(self).lower_bound
            },
            final(self).upper_bound == if last_probe_succeeded {
                old(self).upper_bound
            } else {
                (old(self).last_probed_mtu - 1) as u16
            },
            *final(self) == (SearchState {
                lower_bound: final(self).lower_bound,
                upper_bound: final(self).upper_bound,
                ..*old(self)
            }),
            r == spec_next_probe(
                final(self).lower_bound,
                final(self).upper_bound,
                old(self).last_probed_mtu,
                old(self).minimum_change,
            ),
            final(self).lower_bound <= final(self).upper_bound ==> match r {
                Some(x) => final(self).lower_bound <= x <= final(self).upper_bound,
                None => true,
            },
    {
        if last_probe_succeeded {
            self.lower_bound = self.last_probed_mtu;
        } else {
            self.upper_bound = self.last_probed_mtu - 1;
        }
        let next_mtu: i32 = (self.lower_bound as i32 + self.upper_bound as i32) / 2;
        let last = self.last_probed_mtu as i32;
        let diff: i32 = if next_mtu >= last {
            next_mtu - last
        } else {
            last - next_mtu
        };
        if diff < self.minimum_change as i32 {
            if self.upper_bound >= self.last_probed_mtu && self.upper_bound - self.last_probed_mtu
                >= self.minimum_change {
                return Some(self.upper_bound);
            }
            return None;
        }
        Some(next_mtu as u16)
    }
}

/// Phase of MTU discovery
#[derive(Debug, Copy, Clone, PartialEq, Eq, Structural)]
pub enum Phase {
    /// Not started
    Initial,
    /// Searching
    Searching(SearchState),
    /// Done until the given time, in nanoseconds
    Complete(u64),
}

/// State of MTU discovery where it is enabled
#[derive(Debug, Copy, Clone, PartialEq, Eq, Structural)]
pub struct EnabledMtuDiscovery {
    /// Phase of the search
    pub phase: Phase,
    /// The peer's maximum UDP payload size
    pub peer_max_udp_payload_size: u16,
    /// The configuration
    pub config: MtuDiscoveryConfig,
}

impl EnabledMtuDiscovery {
    /// Discovery that has not started, assuming the largest UDP payload for the peer
    pub fn new(config: MtuDiscoveryConfig) -> (r: EnabledMtuDiscovery)
        ensures
            r == (EnabledMtuDiscovery {
                phase: Phase::Initial,
                peer_max_udp_payload_size: MAX_UDP_PAYLOAD,
                config,
            }),
    {
        EnabledMtuDiscovery { phase: Phase::Initial, peer_max_udp_payload_size: MAX_UDP_PAYLOAD, config }
    }

    /// The size of the next probe to send, as packet `next_pn`, at time `now`, if one is due
    ///
    /// The first call starts the search from `current_mtu`. No probe is sent while one is in
    /// flight; a lost probe is sent again up to `MAX_PROBE_RETRANSMITS - 1` times; then the next
    /// size is probed, and when there is none the search completes until `interval` has passed.
    pub fn poll_transmit(&mut self, now: u64, current_mtu: u16, next_pn: u64) -> (r: Option<u16>)
        requires
            old(self).phase matches Phase::Complete(t) ==> now < t,
            now + old(self).config.interval <= u64::MAX,
            old(self).phase matches Phase::Searching(s) ==> s.in_flight_probe is None && !(0
                < s.lost_probe_count < MAX_PROBE_RETRANSMITS) && s.lost_probe_count != 0
                ==> s.last_probed_mtu >= 1,
        ensures
            (*final(self), r) == spec_mtud_poll(*old(self), now, current_mtu, next_pn),
            r is Some ==> final(self).phase is Searching && final(self).phase->Searching_0.in_flight_probe
                == Some(next_pn) && final(self).phase->Searching_0.last_probed_mtu == r->Some_0,
    {
        match self.phase {
            Phase::Initial => {
                self.phase = Phase::Searching(
                    SearchState::new(current_mtu, self.peer_max_udp_payload_size, &self.config),
                );
            },
            Phase::Complete(_) => {
                return None;
            },
            Phase::Searching(_) => {},
        }
        let mut state = match self.phase {
            Phase::Searching(s) => s,
            _ => {
                return None;
            },
        };
        if state.in_flight_probe.is_some() {
            return None;
        }
        if 0 < state.lost_probe_count && state.lost_probe_count < MAX_PROBE_RETRANSMITS {
            state.in_flight_probe = Some(next_pn);
            self.phase = Phase::Searching(state);
            return Some(state.last_probed_mtu);
        }
        let last_probe_succeeded = state.lost_probe_count == 0;
        if !last_probe_succeeded {
            state.lost_probe_count = 0;
            state.in_flight_probe = None;
        }
        match state.next_mtu_to_probe(last_probe_succeeded) {
            Some(probe_udp_payload_size) => {
                state.in_flight_probe = Some(next_pn);
                state.last_probed_mtu = probe_udp_payload_size;
                self.phase = Phase::Searching(state);
                Some(probe_udp_payload_size)
            },
            None => {
                self.phase = Phase::Complete(now + self.config.interval);
                None
            },
        }
    }
}

/// Path MTU discovery state
#[derive(Debug, Copy, Clone, PartialEq, Eq, Structural)]
pub struct MtuDiscovery {
    /// The MTU in use
    pub current_mtu: u16,
    /// The search, where enabled
    pub state: Option<EnabledMtuDiscovery>,
}

impl MtuDiscovery {
    /// Discovery starting from `initial_plpmtu`, enabled with `config`
    pub fn new(
        initial_plpmtu: u16,
        min_mtu: u16,
        peer_max_udp_payload_size: Option<u16>,
        config: MtuDiscoveryConfig,
    ) -> (r: MtuDiscovery)
        requires
            initial_plpmtu >= min_mtu,
        ensures
            r.current_mtu == initial_plpmtu,
            r.state == Some(
                EnabledMtuDiscovery {
                    phase: Phase::Initial,
                    peer_max_udp_payload_size: MAX_UDP_PAYLOAD,
                    config,
                },
            ),
    {
        MtuDiscovery::with_state(initial_plpmtu, min_mtu, Some(EnabledMtuDiscovery::new(config)))
    }

    /// Discovery that is disabled: the MTU stays at `plpmtu`
    pub fn disabled(plpmtu: u16, min_mtu: u16) -> (r: MtuDiscovery)
        ensures
            r.current_mtu == plpmtu,
            r.state is None,
    {
        MtuDiscovery::with_state(plpmtu, min_mtu, None)
    }

    /// The MTU in use
    pub fn current_mtu(&self) -> (r: u16)
        ensures
            r == self.current_mtu,
    {
        self.current_mtu
    }

    /// Discovery with the given MTU and search state
    fn with_state(current_mtu: u16, min_mtu: u16, state: Option<EnabledMtuDiscovery>) -> (r:
        MtuDiscovery)
        ensures
            r == (MtuDiscovery { current_mtu, state }),
    {
        MtuDiscovery { current_mtu, state }
    }

    /// The size of the next probe to send, as packet `next_pn`, at time `now`, if one is due
    pub fn poll_transmit(&mut self, now: u64, next_pn: u64) -> (r: Option<u16>)
        requires
            old(self).state matches Some(s) ==> ({
                &&& s.phase matches Phase::Complete(t) ==> now < t
                &&& now + s.config.interval <= u64::MAX
                &&& s.phase matches Phase::Searching(st) ==> st.in_flight_probe is None && !(0
                    < st.lost_probe_count < MAX_PROBE_RETRANSMITS) && st.lost_probe_count != 0
                    ==> st.last_probed_mtu >= 1
            }),
        ensures
            old(self).state is None ==> r is None && *final(self) == *old(self),
            old(self).state matches Some(e) ==> {
                let (e2, probe) = spec_mtud_poll(e, now, old(self).current_mtu, next_pn);
                final(self).state == Some(e2) && r == probe
            },
            final(self).current_mtu == old(self).current_mtu,
    {
        let mtu = self.current_mtu;
        match &mut self.state {
            Some(state) => state.poll_transmit(now, mtu, next_pn),
            None => None,
        }
    }

    /// Account for the peer's maximum UDP payload size: the MTU in use does not exceed it
    pub fn on_peer_max_udp_payload_size_received(&mut self, peer_max_udp_payload_size: u16)
        requires
            old(self).state matches Some(s) ==> s.phase is Initial,
        ensures
            final(self).current_mtu == if old(self).current_mtu < peer_max_udp_payload_size {
                old(self).current_mtu
            } else {
                peer_max_udp_payload_size
            },
            final(self).state == match old(self).state {
                Some(s) => Some(EnabledMtuDiscovery { peer_max_udp_payload_size, ..s }),
                None => None,
            },
    {
        if peer_max_udp_payload_size < self.current_mtu {
            self.current_mtu = peer_max_udp_payload_size;
        }
        match &mut self.state {
            Some(state) => {
                state.peer_max_udp_payload_size = peer_max_udp_payload_size;
            },
            None => {},
        }
    }

    /// Account for the acknowledgement of packet `pn` of `len` bytes in `space`; returns whether
    /// it changed the MTU. Packets outside the Data space never do.
    pub fn on_acked(&mut self, space: SpaceId, pn: u64, len: u16) -> (r: bool)
        requires
            space != SpaceId::Data,
        ensures
            !r,
            *final(self) == *old(self),
    {
        false
    }

    /// The packet number of the probe in flight, if any
    pub fn in_flight_mtu_probe(&self) -> (r: Option<u64>)
        ensures
            r == match self.state {
                Some(EnabledMtuDiscovery { phase: Phase::Searching(s), .. }) => s.in_flight_probe,
                _ => None,
            },
    {
        match &self.state {
            Some(EnabledMtuDiscovery { phase: Phase::Searching(s), .. }) => s.in_flight_probe,
            _ => None,
        }
    }
}

} // verus!
