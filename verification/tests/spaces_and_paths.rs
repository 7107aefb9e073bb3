use quinn_proto::config::TransportConfig;
use quinn_proto::congestion::Controller;
use quinn_proto::paths::{InFlight, PathData, PathResponses, RttEstimator};
use quinn_proto::shared::SocketAddr;
use quinn_proto::packet_space::{PacketSpace, SentPackets};
use quinn_proto::spaces::{Dedup, PacketNumberFilter, PendingAcks, Retransmits, SendableFrames, SentPacket, ThinRetransmits};
use quinn_proto::streams_state::StreamsState;
use quinn_proto::varint::VarInt;
use quinn_proto::Side;
use quinn_proto::transport_parameters::SocketAddrV4;

#[test]
fn dedup_detects_duplicates() {
    let mut d = Dedup::new();
    assert!(!d.insert(0));
    assert!(d.insert(0));
    assert!(!d.insert(1));
    assert!(d.insert(1));
    assert!(!d.insert(3));
    assert!(!d.insert(2));
    assert!(d.insert(2));
    assert!(d.insert(3));
}

#[test]
fn dedup_far_jump_assumes_old_packets_seen() {
    let mut d = Dedup::new();
    assert!(!d.insert(0));
    assert!(!d.insert(200));
    // 71 lies more than a window below 200
    assert!(d.insert(71));
    // 72 lies inside the window and was never seen
    assert!(!d.insert(72));
    assert!(d.insert(72));
}

#[test]
fn packet_number_allocation() {
    let mut s = PacketSpace::new(0);
    assert_eq!(s.get_tx_number(), 0);
    assert_eq!(s.get_tx_number(), 1);
    assert_eq!(s.sent_with_keys, 2);
    let f = PacketNumberFilter::disabled();
    assert_eq!(f.peek(&s), 2);
    let f = PacketNumberFilter::new();
    let p = f.peek(&s);
    assert!(p == 2 || p == 3);
}

#[test]
fn pending_acks_and_sendable() {
    let mut acks = PendingAcks::new();
    assert!(!acks.can_send());
    acks.maybe_ack_non_eliciting();
    assert!(!acks.can_send());
    assert!(SendableFrames::empty().is_empty());
    assert!(!SendableFrames { acks: true, other: false }.is_empty());
    assert!(Retransmits::default().is_empty());
}

#[test]
fn rtt_estimator_pto() {
    let rtt = RttEstimator::new(333_000_000);
    assert_eq!(rtt.get(), 333_000_000);
    // var = 166.5 ms: 4 * var dominates the granularity
    assert_eq!(rtt.pto_base(), 333_000_000 + 4 * 166_500_000);
    let small = RttEstimator::new(100_000);
    assert_eq!(small.pto_base(), 100_000 + 1_000_000);
}

#[test]
fn in_flight_accounting() {
    let mut f = InFlight::new();
    f.insert(&SentPacket { size: 1200, ack_eliciting: true });
    f.insert(&SentPacket { size: 50, ack_eliciting: false });
    assert_eq!(f, InFlight { bytes: 1250, ack_eliciting: 1 });
}

#[test]
fn path_responses_empty() {
    let mut r = PathResponses::new();
    assert!(r.is_empty());
    let a = SocketAddr::V4(SocketAddrV4 { ip: [1, 2, 3, 4], port: 5 });
    assert_eq!(r.pop_on_path(&a), None);
    assert!(r.pop_off_path(&a).is_none());
}

fn streams() -> StreamsState {
    StreamsState::new(
        Side::Client,
        VarInt::from_u32(0),
        VarInt::from_u32(0),
        1000,
        VarInt::from_u32(1000),
        VarInt::from_u32(1000),
    )
}

#[test]
fn sent_packets_map() {
    let mut m = SentPackets::new();
    let p = |size| SentPacket { size, ack_eliciting: false };
    assert_eq!(m.insert(5, p(10)), None);
    assert_eq!(m.insert(3, p(20)), None);
    assert_eq!(m.insert(9, p(30)), None);
    assert_eq!(m.insert(5, p(11)), Some(p(10)));
    assert_eq!(m.len(), 3);
    assert_eq!(m.first_after(3), Some(5));
    assert_eq!(m.first_after(0), Some(3));
    assert_eq!(m.first_after(9), None);
    assert_eq!(m.remove(5), Some(p(11)));
    assert_eq!(m.get(5), None);
    assert_eq!(m.first_after(3), Some(9));
}

#[test]
fn sent_tracks_in_flight_and_forgets_tail() {
    let mut s = PacketSpace::new(0);
    assert_eq!(s.sent(0, SentPacket { size: 100, ack_eliciting: true }), 0);
    assert_eq!(s.largest_ack_eliciting_sent, 0);
    assert_eq!(s.in_flight, 100);
    for n in 1..=1001u64 {
        assert_eq!(s.sent(n, SentPacket { size: 1, ack_eliciting: false }), 0);
    }
    assert_eq!(s.unacked_non_ack_eliciting_tail, 1001);
    // the oldest packet after the last ACK-eliciting one is forgotten
    assert_eq!(s.sent(1002, SentPacket { size: 7, ack_eliciting: false }), 1);
    assert!(s.sent_packets.get(1).is_none());
    assert!(s.sent_packets.get(1002).is_some());
    assert_eq!(s.in_flight, 100 + 1001 - 1 + 7);
    assert_eq!(s.sent(1003, SentPacket { size: 1, ack_eliciting: true }), 0);
    assert_eq!(s.unacked_non_ack_eliciting_tail, 0);
    assert_eq!(s.largest_ack_eliciting_sent, 1003);
}

#[test]
fn probes_and_sendable_frames() {
    let st = streams();
    let mut s = PacketSpace::new(0);
    assert!(s.can_send(&st).is_empty());
    s.maybe_queue_probe(true, &st);
    assert!(!s.immediate_ack_pending);
    s.loss_probes = 1;
    s.pending.ack_frequency = true;
    s.maybe_queue_probe(true, &st);
    assert!(s.immediate_ack_pending);
    let f = s.can_send(&st);
    assert!(f.other && !f.acks);
}

struct FixedWindow(u64);

impl quinn_proto::congestion::Controller for FixedWindow {
    fn window(&self) -> u64 {
        self.0
    }
    fn initial_window(&self) -> u64 {
        self.0
    }
}

struct FixedFactory;

impl quinn_proto::congestion::ControllerFactory for FixedFactory {
    type Output = FixedWindow;
    fn build(&self, _now: u64, current_mtu: u16) -> FixedWindow {
        FixedWindow(u64::from(current_mtu) * 10)
    }
}

fn path_to(port: u16, allow_mtud: bool) -> PathData<FixedWindow> {
    let remote = SocketAddr::V4(SocketAddrV4 { ip: [10, 0, 0, 1], port });
    let config = TransportConfig::default();
    PathData::new(remote, allow_mtud, None, 0, false, &config, &FixedFactory)
}

#[test]
fn new_path_starts_empty_with_configured_mtu() {
    let path = path_to(4433, true);
    assert_eq!(path.total_sent, 0);
    assert_eq!(path.total_recvd, 0);
    assert!(!path.validated);
    assert!(path.sending_ecn);
    assert_eq!(path.first_packet, None);
    assert_eq!(path.current_mtu(), 1200);
    assert!(path.mtud.state.is_some());
    assert_eq!(path.congestion.window(), 12000);
    assert_eq!(path.rtt.get(), 333_000_000);
    let no_discovery = path_to(4433, false);
    assert!(no_discovery.mtud.state.is_none());
}

#[test]
fn unvalidated_path_may_send_three_times_what_it_received() {
    let mut path = path_to(4433, false);
    path.total_recvd = 100;
    path.total_sent = 250;
    assert!(!path.anti_amplification_blocked(50));
    assert!(path.anti_amplification_blocked(51));
    path.validated = true;
    assert!(!path.anti_amplification_blocked(10_000));
}

#[test]
fn path_counts_sent_packets_in_flight() {
    let mut path = path_to(4433, false);
    let mut space = PacketSpace::new(0);
    path.sent(0, SentPacket { size: 1200, ack_eliciting: true }, &mut space);
    path.sent(1, SentPacket { size: 40, ack_eliciting: false }, &mut space);
    assert_eq!(path.first_packet, Some(0));
    assert_eq!(path.in_flight.bytes, 1240);
    assert_eq!(path.in_flight.ack_eliciting, 1);
    assert_eq!(space.in_flight, 1240);
}

#[test]
fn thin_retransmits_allocate_on_demand() {
    let mut thin = ThinRetransmits::new();
    assert!(thin.is_empty());
    thin.get_or_create().handshake_done = true;
    assert!(thin.get_or_create().handshake_done);
    assert!(thin.is_empty());
    thin.get_or_create().ack_frequency = true;
    assert!(!thin.is_empty());
}
