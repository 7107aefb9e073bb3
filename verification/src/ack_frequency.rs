//! State of the ACK frequency extension: the maximum ACK delay asked of the peer.
use vstd::prelude::*;

use crate::config::AckFrequencyConfig;
use crate::transport_parameters::TransportParameters;
use crate::varint::{VarInt, VARINT_BOUND};

verus! {

/// Smallest maximum ACK delay chosen automatically, in nanoseconds (25 ms)
pub const MIN_AUTOMATIC_ACK_DELAY: u64 = 25_000_000;

/// State of the ACK frequency extension; durations in nanoseconds
pub struct AckFrequencyState {
    /// The maximum ACK delay the peer uses
    pub peer_max_ack_delay: u64,
    /// Packet number of the ACK_FREQUENCY frame in flight, and the delay it asks for
    pub in_flight_ack_frequency_frame: Option<(u64, u64)>,
    /// The maximum ACK delay this endpoint uses
    pub max_ack_delay: u64,
    /// Sequence number of the next ACK_FREQUENCY frame
    pub next_outgoing_sequence_number: VarInt,
}

impl AckFrequencyState {
    /// The ACK_FREQUENCY frame in flight: its packet number and the delay it asks for
    pub open spec fn spec_in_flight(&self) -> Option<(u64, u64)> {
        self.in_flight_ack_frequency_frame
    }

    /// Sequence number of the next ACK_FREQUENCY frame
    pub open spec fn spec_next_seq(&self) -> u64 {
        self.next_outgoing_sequence_number@
    }

    /// Initial state: both sides use `default_max_ack_delay`
    pub fn new(default_max_ack_delay: u64) -> (r: AckFrequencyState)
        ensures
            r.peer_max_ack_delay == default_max_ack_delay,
            r.max_ack_delay == default_max_ack_delay,
            r.spec_in_flight() is None,
            r.spec_next_seq() == 0,
    {
        AckFrequencyState {
            peer_max_ack_delay: default_max_ack_delay,
            in_flight_ack_frequency_frame: None,
            max_ack_delay: default_max_ack_delay,
            next_outgoing_sequence_number: VarInt::from_u32(0),
        }
    }

    /// The maximum ACK delay to assume for the probe timeout: the peer's, or the one asked for
    /// by the frame in flight if that is larger
    pub fn max_ack_delay_for_pto(&self) -> (r: u64)
        ensures
            r == match self.spec_in_flight() {
                Some((_, d)) => if self.peer_max_ack_delay > d {
                    self.peer_max_ack_delay
                } else {
                    d
                },
                None => self.peer_max_ack_delay,
            },
    {
        match self.in_flight_ack_frequency_frame {
            Some((_, max_ack_delay)) => if self.peer_max_ack_delay > max_ack_delay {
                self.peer_max_ack_delay
            } else {
                max_ack_delay
            },
            None => self.peer_max_ack_delay,
        }
    }

    /// Take the sequence number for the next ACK_FREQUENCY frame
    pub fn next_sequence_number(&mut self) -> (r: VarInt)
        requires
            old(self).spec_next_seq() + 1 < VARINT_BOUND,
        ensures
            r@ == old(self).spec_next_seq(),
            final(self).spec_next_seq() == old(self).spec_next_seq() + 1,
            final(self).spec_in_flight() == old(self).spec_in_flight(),
            final(self).peer_max_ack_delay == old(self).peer_max_ack_delay,
            final(self).max_ack_delay == old(self).max_ack_delay,
    {
        let seq = self.next_outgoing_sequence_number;
        let next = match VarInt::from_u64(seq.into_inner() + 1) {
            Ok(v) => v,
            Err(_) => {
                proof {
                    assert(false);
                }
                seq
            },
        };
        self.next_outgoing_sequence_number = next;
        seq
    }

    /// The maximum ACK delay to ask of the peer: the configured one, or the peer's own, kept
    /// between the peer's minimum ACK delay and the larger of `rtt` and 25 ms
    pub fn candidate_max_ack_delay(
        &self,
        rtt: u64,
        config: &AckFrequencyConfig,
        peer_params: &TransportParameters,
    ) -> (r: u64)
        requires
            peer_params.min_ack_delay matches Some(m) ==> m@ * 1000 <= u64::MAX,
            (match peer_params.min_ack_delay {
                Some(m) => m@ * 1000,
                None => 0,
            }) <= if rtt > MIN_AUTOMATIC_ACK_DELAY {
                rtt
            } else {
                MIN_AUTOMATIC_ACK_DELAY
            },
        ensures
            ({
                let lo = match peer_params.min_ack_delay {
                    Some(m) => m@ * 1000,
                    None => 0,
                };
                let hi = if rtt > MIN_AUTOMATIC_ACK_DELAY {
                    rtt
                } else {
                    MIN_AUTOMATIC_ACK_DELAY
                };
                let d = match config.max_ack_delay {
                    Some(d) => d,
                    None => self.peer_max_ack_delay,
                };
                r == if d < lo {
                    lo
                } else if d > hi {
                    hi as int
                } else {
                    d as int
                }
            }),
    {
        let min_ack_delay: u64 = match peer_params.min_ack_delay {
            Some(m) => m.into_inner() * 1000,
            None => 0,
        };
        let max: u64 = if rtt > MIN_AUTOMATIC_ACK_DELAY {
            rtt
        } else {
            MIN_AUTOMATIC_ACK_DELAY
        };
        let d = match config.max_ack_delay {
            Some(d) => d,
            None => self.peer_max_ack_delay,
        };
        if d < min_ack_delay {
            min_ack_delay
        } else if d > max {
            max
        } else {
            d
        }
    }

    /// Record that an ACK_FREQUENCY frame asking for `requested_max_ack_delay` was sent in
    /// packet `pn`
    pub fn ack_frequency_sent(&mut self, pn: u64, requested_max_ack_delay: u64)
        ensures
            final(self).spec_in_flight() == Some((pn, requested_max_ack_delay)),
            final(self).spec_next_seq() == old(self).spec_next_seq(),
            final(self).peer_max_ack_delay == old(self).peer_max_ack_delay,
            final(self).max_ack_delay == old(self).max_ack_delay,
    {
        self.in_flight_ack_frequency_frame = Some((pn, requested_max_ack_delay));
    }

    /// Account for the acknowledgement of packet `pn`: if it carried the ACK_FREQUENCY frame in
    /// flight, the peer now uses the delay it asked for
    pub fn on_acked(&mut self, pn: u64)
        ensures
            match old(self).spec_in_flight() {
                Some((number, d)) if number == pn => final(self).spec_in_flight() is None
                    && final(self).peer_max_ack_delay == d,
                _ => final(self).spec_in_flight() == old(self).spec_in_flight()
                    && final(self).peer_max_ack_delay == old(self).peer_max_ack_delay,
            },
            final(self).spec_next_seq() == old(self).spec_next_seq(),
            final(self).max_ack_delay == old(self).max_ack_delay,
    {
        match self.in_flight_ack_frequency_frame {
            Some((number, requested_max_ack_delay)) => {
                if number == pn {
                    self.in_flight_ack_frequency_frame = None;
                    self.peer_max_ack_delay = requested_max_ack_delay;
                }
            },
            None => {},
        }
    }
}

} // verus!
