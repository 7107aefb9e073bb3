//! Per-packet-number-space state: duplicate detection, retransmission queues, pending ACKs and
//! packet number allocation.
use rand::Rng;
use vstd::prelude::*;

use crate::frame::Crypto;
use crate::range_set::RangeSet;
use crate::packet_space::PacketSpace;
use crate::shared::IssuedCid;

verus! {

/// Represents one or more packets subject to retransmission
#[derive(Debug, Copy, Clone, PartialEq, Eq, Structural)]
pub struct SentPacket {
    /// The number of bytes sent in the packet, not including UDP or IP overhead, but including
    /// QUIC framing overhead. Zero if this packet is not counted towards congestion control.
    pub size: u16,
    /// Whether an acknowledgement is expected directly in response to this packet.
    pub ack_eliciting: bool,
}

/// Retransmittable data queue
#[derive(Debug, Clone)]
pub struct Retransmits {
    /// Connection IDs to announce
    pub new_cids: Vec<IssuedCid>,
    /// Handshake data to send
    pub crypto: Vec<Crypto>,
    /// Whether an ACK_FREQUENCY frame is to be sent
    pub ack_frequency: bool,
    /// Whether a HANDSHAKE_DONE frame is to be sent
    pub handshake_done: bool,
    /// Sequence numbers of connection IDs to retire
    pub retire_cids: Vec<u64>,
    /// Whether a MAX_STREAMS frame is to be sent, per direction (bidirectional first)
    pub max_stream_id: [bool; 2],
}

impl Default for Retransmits {
    fn default() -> (r: Retransmits)
        ensures
            r.new_cids@.len() == 0,
            r.crypto@.len() == 0,
            !r.ack_frequency,
            !r.handshake_done,
            r.retire_cids@.len() == 0,
            r.max_stream_id@ == seq![false, false],
    {
        Retransmits {
            new_cids: Vec::new(),
            crypto: Vec::new(),
            ack_frequency: false,
            handshake_done: false,
            retire_cids: Vec::new(),
            max_stream_id: [false, false],
        }
    }
}

impl Retransmits {
    /// Whether nothing is queued: no handshake data, no connection IDs to announce and no
    /// ACK_FREQUENCY frame
    pub fn is_empty(&self) -> (r: bool)
        ensures
            r == (self.crypto@.len() == 0 && self.new_cids@.len() == 0 && !self.ack_frequency),
    {
        self.crypto.len() == 0 && self.new_cids.len() == 0 && !self.ack_frequency
    }
}

/// A variant of `Retransmits` which only allocates storage when required
pub struct ThinRetransmits {
    retransmits: Option<Box<Retransmits>>,
}

/// Whether `r` holds nothing at all, as `Retransmits::default` makes it
pub open spec fn spec_retransmits_fresh(r: Retransmits) -> bool {
    &&& r.new_cids@.len() == 0
    &&& r.crypto@.len() == 0
    &&& !r.ack_frequency
    &&& !r.handshake_done
    &&& r.retire_cids@.len() == 0
    &&& r.max_stream_id@ == seq![false, false]
}

impl ThinRetransmits {
    /// The stored queue, once one has been allocated
    pub closed spec fn spec_stored(&self) -> Option<Retransmits> {
        match self.retransmits {
            Some(b) => Some(*b),
            None => None,
        }
    }

    /// No storage yet
    pub fn new() -> (r: ThinRetransmits)
        ensures
            r.spec_stored() is None,
    {
        ThinRetransmits { retransmits: None }
    }

    /// The stored retransmits, allocated empty where there were none yet
    pub fn get_or_create(&mut self) -> (r: &mut Retransmits)
        ensures
            old(self).spec_stored() matches Some(x) ==> *r == x,
            old(self).spec_stored() is None ==> spec_retransmits_fresh(*r),
            final(self).spec_stored() == Some(*final(r)),
    {
        if self.retransmits.is_none() {
            self.retransmits = Some(Box::new(Retransmits::default()));
        }
        let b = self.retransmits.as_mut().unwrap();
        &mut **b
    }

    /// Whether no retransmits are necessary: nothing stored, or a stored queue that is empty
    pub fn is_empty(&self) -> (r: bool)
        ensures
            r == match self.spec_stored() {
                Some(x) => x.crypto@.len() == 0 && x.new_cids@.len() == 0 && !x.ack_frequency,
                None => true,
            },
    {
        match &self.retransmits {
            Some(retransmits) => retransmits.is_empty(),
            None => true,
        }
    }
}

/// Number of packets tracked by `Dedup`: the highest one and a 128-bit window below it
pub const WINDOW_SIZE: u64 = 129;

/// Whether bit `i` of `w` is set
pub open spec fn spec_bit(w: u128, i: u128) -> bool {
    (w >> i) & 1u128 == 1u128
}

/// Bits of the window shifted for a new highest packet `d + 1` above the old one
proof fn lemma_bit_shift(w: u128, d: u128, i: u128)
    by (bit_vector)
    requires
        d < 128,
        i < 128,
    ensures
        spec_bit(((w << 1u128) | 1u128) << d, i) == (if i < d {
            false
        } else if i == d {
            true
        } else {
            spec_bit(w, (i - d - 1) as u128)
        }),
{
}

/// Setting bit `b` of the window
proof fn lemma_bit_set(w: u128, b: u128, i: u128)
    by (bit_vector)
    requires
        b < 128,
        i < 128,
    ensures
        (w & (1u128 << b) != 0) == spec_bit(w, b),
        spec_bit(w | (1u128 << b), i) == (spec_bit(w, i) || i == b),
{
}

/// No bit of the empty window is set
proof fn lemma_bit_zero(i: u128)
    by (bit_vector)
    requires
        i < 128,
    ensures
        !spec_bit(0u128, i),
{
}

/// RFC4303-style sliding window packet number deduplicator.
///
/// A contiguous bitfield, where each bit corresponds to a packet number and the rightmost bit is
/// always set. A set bit represents a packet that has been successfully authenticated. Bits left
/// of the window are assumed to be set.
#[derive(Debug, Copy, Clone, PartialEq, Eq, Structural)]
pub struct Dedup {
    window: u128,
    /// Lowest packet number higher than all yet authenticated.
    next: u64,
}

impl Dedup {
    /// Whether `p` counts as already authenticated: it is the highest packet seen, its bit is set
    /// in the window below the highest, or it lies left of the window
    pub closed spec fn seen(self, p: u64) -> bool {
        &&& p < self.next
        &&& (self.next - 1 - p >= WINDOW_SIZE || p == self.next - 1 || spec_bit(
            self.window,
            (self.next - 2 - p) as u128,
        ))
    }

    /// Lowest packet number higher than all yet authenticated
    pub closed spec fn spec_next(self) -> u64 {
        self.next
    }

    /// Only packets below the next expected packet number count as seen
    pub proof fn lemma_seen_below_next(self, p: u64)
        ensures
            self.seen(p) ==> p < self.spec_next(),
    {
    }

    /// Construct an empty window positioned at the start.
    pub fn new() -> (r: Dedup)
        ensures
            forall|p: u64| !r.seen(p),
            r.spec_next() == 0,
    {
        Dedup { window: 0, next: 0 }
    }

    /// Record a newly authenticated packet number.
    ///
    /// Returns whether the packet might be a duplicate: whether it counted as seen before. After
    /// the call it counts as seen, and so do all packets a full window or more below it.
    pub fn insert(&mut self, packet: u64) -> (r: bool)
        requires
            packet < u64::MAX,
        ensures
            r == old(self).seen(packet),
            packet >= old(self).spec_next() ==> !r,
            final(self).seen(packet),
            forall|x: u64| #[trigger]
                final(self).seen(x) == (old(self).seen(x) || x == packet || x + WINDOW_SIZE
                    <= packet),
            final(self).spec_next() == if packet >= old(self).spec_next() {
                (packet + 1) as u64
            } else {
                old(self).spec_next()
            },
    {
        let ghost old_self = *self;
        if packet >= self.next {
            let diff = packet - self.next;
            let w = self.window;
            let new_window: u128 = if diff < 128 {
                ((w << 1u128) | 1u128) << (diff as u128)
            } else {
                0
            };
            self.window = new_window;
            self.next = packet + 1;
            proof {
                assert forall|x: u64|
                    #[trigger] self.seen(x) == (old_self.seen(x) || x == packet || x + WINDOW_SIZE
                        <= packet) by {
                    if x < packet && packet - x < WINDOW_SIZE {
                        let i = (packet - 1 - x) as u128;
                        if diff < 128 {
                            lemma_bit_shift(w, diff as u128, i);
                        } else {
                            lemma_bit_zero(i);
                        }
                    }
                }
            }
            false
        } else if self.next - 1 - packet < WINDOW_SIZE {
            if packet < self.next - 1 {
                let bit = (self.next - 2 - packet) as u128;
                let w = self.window;
                let mask = 1u128 << bit;
                let duplicate = w & mask != 0;
                self.window = w | mask;
                proof {
                    lemma_bit_set(w, bit, bit);
                    assert forall|x: u64|
                        #[trigger] self.seen(x) == (old_self.seen(x) || x == packet || x
                            + WINDOW_SIZE <= packet) by {
                        if x < self.next - 1 && self.next - 1 - x < WINDOW_SIZE {
                            lemma_bit_set(w, bit, (self.next - 2 - x) as u128);
                        }
                    }
                }
                duplicate
            } else {
                true
            }
        } else {
            true
        }
    }
}

/// Indicates which data is available for sending
#[derive(Debug, Copy, Clone, PartialEq, Eq, Structural)]
pub struct SendableFrames {
    /// Whether ACK frames can be sent
    pub acks: bool,
    /// Whether other frames can be sent
    pub other: bool,
}

impl SendableFrames {
    /// Whether no data is sendable
    pub fn is_empty(&self) -> (r: bool)
        ensures
            r == (!self.acks && !self.other),
    {
        !self.acks && !self.other
    }

    /// Returns that no data is available for sending
    pub fn empty() -> (r: SendableFrames)
        ensures
            r == (SendableFrames { acks: false, other: false }),
    {
        SendableFrames { acks: false, other: false }
    }
}

/// Threshold of non-ACK-eliciting packets received since the last ACK was sent above which an
/// ACK is included in the next packet sent
pub const LAZY_ACK_THRESHOLD: u64 = 10;

/// Packet numbers to acknowledge
pub struct PendingAcks {
    /// Whether we should send an ACK immediately, even if that means sending an ACK-only packet
    immediate_ack_required: bool,
    /// The packet number ranges of ack-eliciting packets the peer hasn't confirmed receipt of
    /// ACKs for
    ranges: RangeSet,
    /// Number of non-ACK-eliciting packets received since the last ACK was sent
    non_ack_eliciting_since_last_ack_sent: u64,
}

impl PendingAcks {
    /// Whether an ACK is to be sent immediately
    pub closed spec fn spec_immediate(&self) -> bool {
        self.immediate_ack_required
    }

    /// The packet numbers to acknowledge
    pub closed spec fn spec_ranges(&self) -> Set<u64> {
        self.ranges@
    }

    /// Non-ACK-eliciting packets received since the last ACK was sent
    pub closed spec fn spec_non_eliciting(&self) -> u64 {
        self.non_ack_eliciting_since_last_ack_sent
    }

    /// Nothing to acknowledge
    pub fn new() -> (r: PendingAcks)
        ensures
            !r.spec_immediate(),
            r.spec_ranges() == Set::<u64>::empty(),
            r.spec_non_eliciting() == 0,
    {
        PendingAcks {
            immediate_ack_required: false,
            ranges: RangeSet::new(),
            non_ack_eliciting_since_last_ack_sent: 0,
        }
    }

    /// Whether any ACK frames can be sent
    pub fn can_send(&self) -> (r: bool)
        ensures
            r == (self.spec_immediate() && self.spec_ranges() != Set::<u64>::empty()),
    {
        self.immediate_ack_required && !self.ranges.is_empty()
    }

    /// Queue an ACK if a significant number of non-ACK-eliciting packets have not yet been
    /// acknowledged
    pub fn maybe_ack_non_eliciting(&mut self)
        ensures
            final(self).spec_immediate() == (old(self).spec_immediate()
                || old(self).spec_non_eliciting() > LAZY_ACK_THRESHOLD),
            final(self).spec_ranges() == old(self).spec_ranges(),
            final(self).spec_non_eliciting() == old(self).spec_non_eliciting(),
    {
        if self.non_ack_eliciting_since_last_ack_sent > LAZY_ACK_THRESHOLD {
            self.immediate_ack_required = true;
        }
    }
}

/// Largest packet number that can be allocated, exclusive: 2^62
pub const PN_BOUND: u64 = 0x4000_0000_0000_0000;

/// Helper for mitigating optimistic ACK attacks: packet numbers are occasionally skipped, and
/// an ACK of a skipped packet number is a transport error
pub struct PacketNumberFilter {
    /// Next outgoing packet number to skip
    next_skipped_packet_number: u64,
}

/// A random integer in `low..high`
#[verifier::external_body]
pub(crate) fn random_in_range(low: u64, high: u64) -> (r: u64)
    requires
        low < high,
    ensures
        low <= r < high,
{
    rand::thread_rng().gen_range(low..high)
}

impl PacketNumberFilter {
    /// The next packet number to skip
    pub closed spec fn spec_next_skipped(&self) -> u64 {
        self.next_skipped_packet_number
    }

    /// A filter whose first skipped packet number is drawn from `0..64`
    pub fn new() -> (r: PacketNumberFilter)
        ensures
            r.spec_next_skipped() < 64,
    {
        PacketNumberFilter { next_skipped_packet_number: random_in_range(0, 64) }
    }

    /// A filter that never skips
    pub fn disabled() -> (r: PacketNumberFilter)
        ensures
            r.spec_next_skipped() == u64::MAX,
    {
        PacketNumberFilter { next_skipped_packet_number: u64::MAX }
    }

    /// The packet number the next packet would get, given the space's next packet number `n`:
    /// `n`, unless `n` is to be skipped
    pub fn peek(&self, space: &PacketSpace) -> (r: u64)
        requires
            space.next_packet_number < u64::MAX,
        ensures
            r == if space.next_packet_number != self.spec_next_skipped() {
                space.next_packet_number
            } else {
                (space.next_packet_number + 1) as u64
            },
    {
        let n = space.next_packet_number;
        if n != self.next_skipped_packet_number {
            return n;
        }
        n + 1
    }
}

} // verus!
