//! The state of one packet number space: what is queued, what was sent and not yet
//! acknowledged, and which packet number comes next.
use vstd::prelude::*;

use crate::byte_map::{
    lemma_map_of_index, lemma_map_of_len, lemma_map_of_remove, lemma_map_of_update, spec_keys_distinct,
    spec_map_of,
};
use crate::spaces::{Dedup, PendingAcks, Retransmits, SendableFrames, SentPacket, PN_BOUND};
use crate::streams_state::StreamsState;

verus! {

/// Number of non-ACK-eliciting packets sent after the last ACK-eliciting one that are
/// remembered; older ones are forgotten
pub const MAX_UNACKED_NON_ACK_ELICITING_TAIL: u64 = 1_000;

/// The smallest packet number of `m` above `bound`, if any
pub open spec fn spec_first_after(m: Map<u64, SentPacket>, bound: u64) -> Option<u64> {
    if exists|k: u64| #[trigger] m.contains_key(k) && k > bound {
        Some(
            choose|k: u64|
                #![trigger m.contains_key(k)]
                m.contains_key(k) && k > bound && forall|j: u64|
                    #![trigger m.contains_key(j)]
                    m.contains_key(j) && j > bound ==> k <= j,
        )
    } else {
        None
    }
}

/// Packets sent and not yet acknowledged or forgotten, by packet number
pub struct SentPackets {
    entries: Vec<(u64, SentPacket)>,
}

impl SentPackets {
    #[verifier::type_invariant]
    closed spec fn inv(self) -> bool {
        spec_keys_distinct(self.entries@)
    }

    /// The packets, by number
    pub closed spec fn spec_map(&self) -> Map<u64, SentPacket> {
        spec_map_of(self.entries@)
    }

    /// No packet
    pub fn new() -> (r: SentPackets)
        ensures
            r.spec_map() == Map::<u64, SentPacket>::empty(),
    {
        let r = SentPackets { entries: Vec::new() };
        assert(r.spec_map() =~= Map::<u64, SentPacket>::empty());
        r
    }

    /// Number of packets
    pub fn len(&self) -> (r: usize)
        ensures
            r == self.spec_map().dom().len(),
    {
        proof {
            use_type_invariant(self);
            lemma_map_of_len(self.entries@);
        }
        self.entries.len()
    }

    /// Position of the entry of packet `number`
    fn find(&self, number: u64) -> (r: Option<usize>)
        ensures
            match r {
                Some(i) => i < self.entries@.len() && self.entries@[i as int].0 == number,
                None => forall|i: int|
                    0 <= i < self.entries@.len() ==> #[trigger] self.entries@[i].0 != number,
            },
    {
        let mut i: usize = 0;
        while i < self.entries.len()
            invariant
                i <= self.entries@.len(),
                forall|j: int| 0 <= j < i ==> #[trigger] self.entries@[j].0 != number,
            decreases self.entries@.len() - i,
        {
            if self.entries[i].0 == number {
                return Some(i);
            }
            i = i + 1;
        }
        None
    }

    /// The packet with number `number`, if tracked
    pub fn get(&self, number: u64) -> (r: Option<SentPacket>)
        ensures
            r == if self.spec_map().contains_key(number) {
                Some(self.spec_map()[number])
            } else {
                None::<SentPacket>
            },
    {
        proof {
            use_type_invariant(self);
            lemma_map_of_index(self.entries@, number);
        }
        match self.find(number) {
            Some(i) => Some(self.entries[i].1),
            None => None,
        }
    }

    /// Track `packet` as number `number`; returns the packet it replaces, if any
    pub fn insert(&mut self, number: u64, packet: SentPacket) -> (r: Option<SentPacket>)
        ensures
            final(self).spec_map() == old(self).spec_map().insert(number, packet),
            r == if old(self).spec_map().contains_key(number) {
                Some(old(self).spec_map()[number])
            } else {
                None::<SentPacket>
            },
    {
        proof {
            use_type_invariant(&*self);
            lemma_map_of_index(self.entries@, number);
        }
        let found = self.find(number);
        let mut tmp = SentPackets { entries: Vec::new() };
        std::mem::swap(self, &mut tmp);
        let SentPackets { mut entries } = tmp;
        let ghost e0 = entries@;
        let r = match found {
            Some(i) => {
                let previous = entries[i].1;
                proof {
                    lemma_map_of_update(e0, i as int, packet);
                }
                entries.set(i, (number, packet));
                assert(entries@ == e0.update(i as int, (e0[i as int].0, packet)));
                Some(previous)
            },
            None => {
                entries.push((number, packet));
                proof {
                    assert(entries@.drop_last() =~= e0);
                    assert(spec_keys_distinct(entries@)) by {
                        assert forall|a: int, b: int|
                            0 <= a < entries@.len() && 0 <= b < entries@.len() && a != b implies #[trigger] entries@[a].0
                            != #[trigger] entries@[b].0 by {
                            if a < e0.len() && b < e0.len() {
                                assert(e0[a].0 != e0[b].0);
                            } else if a < e0.len() {
                                assert(e0[a].0 != number);
                            } else {
                                assert(e0[b].0 != number);
                            }
                        }
                    }
                }
                None
            },
        };
        *self = SentPackets { entries };
        r
    }

    /// Stop tracking packet `number`; returns it, if it was tracked
    pub fn remove(&mut self, number: u64) -> (r: Option<SentPacket>)
        ensures
            final(self).spec_map() == old(self).spec_map().remove(number),
            r == if old(self).spec_map().contains_key(number) {
                Some(old(self).spec_map()[number])
            } else {
                None::<SentPacket>
            },
    {
        proof {
            use_type_invariant(&*self);
            lemma_map_of_index(self.entries@, number);
        }
        let found = self.find(number);
        match found {
            None => {
                assert(self.spec_map() =~= old(self).spec_map().remove(number));
                None
            },
            Some(i) => {
                let mut tmp = SentPackets { entries: Vec::new() };
                std::mem::swap(self, &mut tmp);
                let SentPackets { mut entries } = tmp;
                let ghost e0 = entries@;
                proof {
                    lemma_map_of_remove(e0, i as int);
                }
                let (_, p) = entries.remove(i);
                *self = SentPackets { entries };
                Some(p)
            },
        }
    }

    /// The smallest tracked packet number above `bound`
    pub fn first_after(&self, bound: u64) -> (r: Option<u64>)
        ensures
            r == spec_first_after(self.spec_map(), bound),
            r matches Some(k) ==> self.spec_map().contains_key(k) && k > bound,
    {
        proof {
            use_type_invariant(self);
        }
        let ghost e = self.entries@;
        let mut best: Option<u64> = None;
        let mut i: usize = 0;
        while i < self.entries.len()
            invariant
                i <= e.len(),
                e == self.entries@,
                best matches Some(b) ==> b > bound && exists|j: int| 0 <= j < i && #[trigger] e[j].0 == b,
                forall|j: int| 0 <= j < i && #[trigger] e[j].0 > bound ==> (best matches Some(b) && b <= e[j].0),
            decreases e.len() - i,
        {
            let k = self.entries[i].0;
            if k > bound {
                match best {
                    Some(b) => {
                        if k < b {
                            best = Some(k);
                        }
                    },
                    None => {
                        best = Some(k);
                    },
                }
            }
            i = i + 1;
        }
        proof {
            let m = self.spec_map();
            match best {
                Some(b) => {
                    let j0 = choose|j: int| 0 <= j < i && #[trigger] e[j].0 == b;
                    lemma_map_of_index(e, b);
                    assert(m.contains_key(b));
                    assert forall|j: u64| #![trigger m.contains_key(j)] m.contains_key(j) && j > bound implies b <= j by {
                        lemma_map_of_index(e, j);
                        let jj = choose|jj: int| 0 <= jj < e.len() && #[trigger] e[jj].0 == j;
                        assert(e[jj].0 > bound);
                    }
                    let c = choose|k: u64|
                        #![trigger m.contains_key(k)]
                        m.contains_key(k) && k > bound && forall|j: u64|
                            #![trigger m.contains_key(j)]
                            m.contains_key(j) && j > bound ==> k <= j;
                    assert(c <= b);
                    assert(b <= c);
                },
                None => {
                    assert forall|k: u64| m.contains_key(k) implies !(k > bound) by {
                        lemma_map_of_index(e, k);
                        let jj = choose|jj: int| 0 <= jj < e.len() && #[trigger] e[jj].0 == k;
                        if k > bound {
                            assert(e[jj].0 > bound);
                        }
                    }
                },
            }
        }
        best
    }
}

/// The state of one packet number space
pub struct PacketSpace {
    /// Data to send
    pub pending: Retransmits,
    /// Packet numbers already received
    pub dedup: Dedup,
    /// Current offset of the outgoing cryptographic handshake stream
    pub crypto_offset: u64,
    /// Number of tail loss probes to send
    pub loss_probes: u32,
    /// Whether the next packet should ask for an immediate ACK
    pub immediate_ack_pending: bool,
    /// The packet number of the next packet that will be sent
    pub next_packet_number: u64,
    /// The largest packet number the peer acknowledged in an ACK frame
    pub largest_acked_packet: Option<u64>,
    /// Packet numbers to acknowledge
    pub pending_acks: PendingAcks,
    /// Whether a PING frame is to be sent
    pub ping_pending: bool,
    /// Number of packets sent in the current key phase
    pub sent_with_keys: u64,
    /// The highest-numbered ACK-eliciting packet sent
    pub largest_ack_eliciting_sent: u64,
    /// Number of packets tracked with numbers above `largest_ack_eliciting_sent`
    pub unacked_non_ack_eliciting_tail: u64,
    /// Transmitted but not acked
    pub sent_packets: SentPackets,
    /// Number of congestion control "in flight" bytes
    pub in_flight: u64,
    /// When the most recently sent ACK-eliciting packet was sent, in nanoseconds
    pub time_of_last_ack_eliciting_packet: Option<u64>,
    /// When the earliest sent packet in this space will be considered lost by the reordering
    /// window in time, in nanoseconds
    pub loss_time: Option<u64>,
}

impl PacketSpace {
    /// A space in which nothing was sent or received
    pub fn new(now: u64) -> (r: PacketSpace)
        ensures
            r.crypto_offset == 0,
            r.loss_probes == 0,
            !r.immediate_ack_pending,
            r.next_packet_number == 0,
            r.largest_acked_packet is None,
            !r.ping_pending,
            r.sent_with_keys == 0,
            r.largest_ack_eliciting_sent == 0,
            r.unacked_non_ack_eliciting_tail == 0,
            r.sent_packets.spec_map() == Map::<u64, SentPacket>::empty(),
            r.in_flight == 0,
            r.time_of_last_ack_eliciting_packet is None,
            r.loss_time is None,
            r.pending.crypto@.len() == 0 && r.pending.new_cids@.len() == 0 && !r.pending.ack_frequency,
            !r.pending_acks.spec_immediate(),
            r.pending_acks.spec_ranges() == Set::<u64>::empty(),
    {
        PacketSpace {
            pending: Retransmits::default(),
            dedup: Dedup::new(),
            crypto_offset: 0,
            loss_probes: 0,
            immediate_ack_pending: false,
            next_packet_number: 0,
            largest_acked_packet: None,
            pending_acks: PendingAcks::new(),
            ping_pending: false,
            sent_with_keys: 0,
            largest_ack_eliciting_sent: 0,
            unacked_non_ack_eliciting_tail: 0,
            sent_packets: SentPackets::new(),
            in_flight: 0,
            time_of_last_ack_eliciting_packet: None,
            loss_time: None,
        }
    }

    /// Whether nothing is queued in `pending`
    pub open spec fn spec_nothing_pending(&self) -> bool {
        self.pending.crypto@.len() == 0 && self.pending.new_cids@.len() == 0 && !self.pending.ack_frequency
    }

    /// Queue a tail loss probe, if one is due: it asks for an immediate ACK if
    /// `request_immediate_ack`, and carries the data already queued, of which there must be some
    pub fn maybe_queue_probe(&mut self, request_immediate_ack: bool, streams: &StreamsState)
        requires
            old(self).loss_probes > 0 ==> !old(self).spec_nothing_pending(),
        ensures
            final(self).immediate_ack_pending == (old(self).immediate_ack_pending || (old(
                self,
            ).loss_probes > 0 && request_immediate_ack)),
            *final(self) == (PacketSpace { immediate_ack_pending: final(self).immediate_ack_pending, ..*old(self) }),
    {
        if self.loss_probes == 0 {
            return;
        }
        if request_immediate_ack {
            self.immediate_ack_pending = true;
        }
    }

    /// Which frames could be sent in this space: ACKs if one is due, and others if anything is
    /// queued or a PING or immediate ACK is pending
    pub fn can_send(&self, streams: &StreamsState) -> (r: SendableFrames)
        ensures
            r.acks == (self.pending_acks.spec_immediate() && self.pending_acks.spec_ranges()
                != Set::<u64>::empty()),
            r.other == (!self.spec_nothing_pending() || self.ping_pending || self.immediate_ack_pending),
    {
        let acks = self.pending_acks.can_send();
        let other = !self.pending.is_empty() || self.ping_pending || self.immediate_ack_pending;
        SendableFrames { acks, other }
    }

    /// Get the next outgoing packet number in this space
    pub fn get_tx_number(&mut self) -> (r: u64)
        requires
            old(self).next_packet_number < PN_BOUND,
            old(self).sent_with_keys < u64::MAX,
        ensures
            r == old(self).next_packet_number,
            *final(self) == (PacketSpace {
                next_packet_number: (old(self).next_packet_number + 1) as u64,
                sent_with_keys: (old(self).sent_with_keys + 1) as u64,
                ..*old(self)
            }),
    {
        let x = self.next_packet_number;
        self.next_packet_number = self.next_packet_number + 1;
        self.sent_with_keys = self.sent_with_keys + 1;
        x
    }

    /// Track `packet`, sent as number `number`; returns the number of bytes to remove from the
    /// connection's in-flight count: those of the oldest packet sent after the last
    /// ACK-eliciting one, which is forgotten once more than
    /// `MAX_UNACKED_NON_ACK_ELICITING_TAIL` such packets are tracked
    pub fn sent(&mut self, number: u64, packet: SentPacket) -> (r: u64)
        requires
            ({
                let m = old(self).sent_packets.spec_map();
                let forget = !packet.ack_eliciting && old(self).unacked_non_ack_eliciting_tail
                    > MAX_UNACKED_NON_ACK_ELICITING_TAIL;
                let oldest = spec_first_after(m, old(self).largest_ack_eliciting_sent);
                &&& forget ==> oldest is Some && m[oldest->Some_0].size <= old(self).in_flight
                    && old(self).in_flight - m[oldest->Some_0].size + packet.size <= u64::MAX
                &&& !forget ==> old(self).in_flight + packet.size <= u64::MAX
            }),
        ensures
            ({
                let m = old(self).sent_packets.spec_map();
                let oldest = spec_first_after(m, old(self).largest_ack_eliciting_sent);
                if packet.ack_eliciting {
                    &&& r == 0
                    &&& final(self).unacked_non_ack_eliciting_tail == 0
                    &&& final(self).largest_ack_eliciting_sent == number
                    &&& final(self).sent_packets.spec_map() == m.insert(number, packet)
                    &&& final(self).in_flight == old(self).in_flight + packet.size
                } else if old(self).unacked_non_ack_eliciting_tail > MAX_UNACKED_NON_ACK_ELICITING_TAIL {
                    &&& r == m[oldest->Some_0].size
                    &&& final(self).unacked_non_ack_eliciting_tail == old(self).unacked_non_ack_eliciting_tail
                    &&& final(self).largest_ack_eliciting_sent == old(self).largest_ack_eliciting_sent
                    &&& final(self).sent_packets.spec_map() == m.remove(oldest->Some_0).insert(number, packet)
                    &&& final(self).in_flight == old(self).in_flight - r + packet.size
                } else {
                    &&& r == 0
                    &&& final(self).unacked_non_ack_eliciting_tail == old(self).unacked_non_ack_eliciting_tail + 1
                    &&& final(self).largest_ack_eliciting_sent == old(self).largest_ack_eliciting_sent
                    &&& final(self).sent_packets.spec_map() == m.insert(number, packet)
                    &&& final(self).in_flight == old(self).in_flight + packet.size
                }
            }),
            final(self).next_packet_number == old(self).next_packet_number,
            final(self).crypto_offset == old(self).crypto_offset,
            final(self).loss_probes == old(self).loss_probes,
    {
        let mut forgotten_bytes: u64 = 0;
        if packet.ack_eliciting {
            self.unacked_non_ack_eliciting_tail = 0;
            self.largest_ack_eliciting_sent = number;
        } else if self.unacked_non_ack_eliciting_tail > MAX_UNACKED_NON_ACK_ELICITING_TAIL {
            let oldest = self.sent_packets.first_after(self.largest_ack_eliciting_sent).unwrap();
            let forgotten = self.sent_packets.remove(oldest).unwrap();
            forgotten_bytes = forgotten.size as u64;
            self.in_flight = self.in_flight - forgotten_bytes;
        } else {
            self.unacked_non_ack_eliciting_tail = self.unacked_non_ack_eliciting_tail + 1;
        }
        self.in_flight = self.in_flight + packet.size as u64;
        self.sent_packets.insert(number, packet);
        forgotten_bytes
    }
}

} // verus!
