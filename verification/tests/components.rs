use quinn_proto::ack_frequency::AckFrequencyState;
use quinn_proto::cid_generator::{
    ConnectionIdGenerator, HashedConnectionIdGenerator, RandomConnectionIdGenerator,
};
use quinn_proto::cid_queue::{CidQueue, InsertError};
use quinn_proto::cid_state::CidState;
use quinn_proto::config::{AckFrequencyConfig, IdleTimeout, MtuDiscoveryConfig, TransportConfig};
use quinn_proto::frame::{Frame, NewConnectionId};
use quinn_proto::mtud::{MtuDiscovery, SearchState};
use quinn_proto::shared::{ConnectionId, IssuedCid};
use quinn_proto::stats::{ConnectionStats, FrameStats, UdpStats};
use quinn_proto::streams::{PendingStreamsQueue, ShouldTransmit};
use quinn_proto::token::ResetToken;
use quinn_proto::transport_error::Code;
use quinn_proto::transport_parameters::TransportParameters;
use quinn_proto::varint::VarInt;
use quinn_proto::{Dir, Side, StreamId};

#[test]
fn stream_id_parts() {
    let id = StreamId::new(Side::Server, Dir::Uni, 5);
    assert_eq!(id, StreamId(23));
    assert_eq!(id.initiator(), Side::Server);
    assert_eq!(id.dir(), Dir::Uni);
    assert_eq!(id.index(), 5);
    let c = StreamId::new(Side::Client, Dir::Bi, 0);
    assert_eq!(c, StreamId(0));
    assert!(Side::Server.is_server() && Side::Client.is_client());
    assert_eq!(Dir::iter(), vec![Dir::Bi, Dir::Uni]);
}

#[test]
fn code_from_tls_alert() {
    assert_eq!(Code::crypto(0x2a), Code(0x12a));
    let mut buf = Vec::new();
    Code::crypto(0x2a).encode(&mut buf);
    assert_eq!(buf, vec![0x41, 0x2a]);
    assert_eq!(Code::decode(&buf).unwrap(), (Code(0x12a), 2));
}

#[test]
fn random_cid_generator() {
    let mut g = RandomConnectionIdGenerator::new(12);
    assert_eq!(g.generate_cid().len(), 12);
    assert_eq!(g.cid_len(), 12);
    assert_eq!(g.cid_lifetime(), None);
    g.set_lifetime(5);
    assert_eq!(g.cid_lifetime(), Some(5));
    assert_eq!(RandomConnectionIdGenerator::default().cid_len(), 8);
}

#[test]
fn hashed_cid_generator() {
    let mut g = HashedConnectionIdGenerator::from_key(42);
    let cid = g.generate_cid();
    assert_eq!(cid.len(), 8);
    assert_eq!(g.cid_len(), 8);
    let c = HashedConnectionIdGenerator::cid_from_parts(&[1, 2, 3], 0x0807_0605_0403_0201);
    assert_eq!(c.to_vec(), vec![1, 2, 3, 1, 2, 3, 4, 5]);
}

#[test]
fn cid_queue_inserts() {
    let mut q = CidQueue::new(ConnectionId::new(&[1]));
    assert_eq!(q.active(), ConnectionId::new(&[1]));
    let f = |seq| NewConnectionId {
        sequence: seq,
        retire_prior_to: 0,
        id: ConnectionId::new(&[seq as u8]),
        reset_token: ResetToken::from_bytes([0; 16]),
    };
    assert!(matches!(q.insert(f(1)), Ok(None)));
    assert!(matches!(q.insert(f(4)), Ok(None)));
    assert!(matches!(q.insert(f(5)), Err(InsertError::ExceedsLimit)));
    assert_eq!(q.active_seq(), 0);
    q.update_initial_cid(ConnectionId::new(&[7]));
    assert_eq!(q.active(), ConnectionId::new(&[7]));
}

#[test]
fn cid_state_retirement() {
    let mut s = CidState::new(8, Some(100), 1_000, 2);
    assert_eq!(s.next_timeout(), Some(1_100));
    let ids = vec![IssuedCid {
        sequence: 2,
        id: ConnectionId::new(&[2; 8]),
        reset_token: ResetToken::from_bytes([0; 16]),
    }];
    s.new_cids(&ids, 1_000);
    assert_eq!(s.next_timeout(), Some(1_100));
    assert_eq!(s.on_cid_retirement(0, 3).unwrap(), true);
    assert_eq!(s.on_cid_retirement(1, 1).unwrap(), false);
    let e = s.on_cid_retirement(9, 3).unwrap_err();
    assert_eq!(e.code, Code::PROTOCOL_VIOLATION());
    let mut z = CidState::new(0, None, 0, 1);
    assert!(z.on_cid_retirement(0, 1).is_err());
    assert_eq!(z.next_timeout(), None);
}

#[test]
fn mtu_search() {
    let config = MtuDiscoveryConfig::default();
    let mut s = SearchState::new(1200, 1500, &config);
    assert_eq!(s.upper_bound, 1452);
    assert_eq!(s.next_mtu_to_probe(true), Some(1326));
    s.last_probed_mtu = 1326;
    assert_eq!(s.next_mtu_to_probe(false), Some(1262));
    let mut m = MtuDiscovery::new(1200, 1200, None, config);
    assert_eq!(m.poll_transmit(0, 7), Some(1326));
    assert_eq!(m.in_flight_mtu_probe(), Some(7));
    assert_eq!(m.poll_transmit(0, 8), None);
    let mut d = MtuDiscovery::disabled(1200, 1200);
    assert_eq!(d.poll_transmit(0, 1), None);
    d.on_peer_max_udp_payload_size_received(1000);
    assert_eq!(d.current_mtu(), 1000);
}

#[test]
fn ack_frequency_state() {
    let mut s = AckFrequencyState::new(25_000_000);
    assert_eq!(s.max_ack_delay_for_pto(), 25_000_000);
    assert_eq!(s.next_sequence_number().into_inner(), 0);
    assert_eq!(s.next_sequence_number().into_inner(), 1);
    s.ack_frequency_sent(10, 40_000_000);
    assert_eq!(s.max_ack_delay_for_pto(), 40_000_000);
    s.on_acked(9);
    assert_eq!(s.peer_max_ack_delay, 25_000_000);
    s.on_acked(10);
    assert_eq!(s.peer_max_ack_delay, 40_000_000);
    let config = AckFrequencyConfig {
        ack_eliciting_threshold: VarInt::from_u32(1),
        reordering_threshold: VarInt::from_u32(2),
        max_ack_delay: None,
    };
    let params = TransportParameters::default();
    assert_eq!(s.candidate_max_ack_delay(10_000_000, &config, &params), 25_000_000);
    assert_eq!(s.candidate_max_ack_delay(30_000_000, &config, &params), 30_000_000);
}

#[test]
fn stats_counting() {
    let mut u = UdpStats::default();
    u.on_sent(3, 3000);
    assert_eq!(u, UdpStats { datagrams: 3, bytes: 3000, ios: 1 });
    let mut f = FrameStats::default();
    f.record(&Frame::Ping);
    f.record(&Frame::Padding);
    assert_eq!(f.ping, 1);
    let c = ConnectionStats::default();
    assert_eq!(c.udp_rx.datagrams, 0);
}

#[test]
fn streams_queue_and_flags() {
    let mut q = PendingStreamsQueue::new();
    assert!(q.is_empty());
    q.push_pending(StreamId(4), 0);
    assert!(!q.is_empty());
    assert!(ShouldTransmit(true).should_transmit());
    assert!(!ShouldTransmit::default().should_transmit());
}

#[test]
fn config_defaults() {
    let c = TransportConfig::default();
    assert_eq!(c.get_initial_mtu(), 1200);
    let mut c2 = c;
    c2.max_idle_timeout(Some(IdleTimeout::from(VarInt::from_u32(5))));
    assert_eq!(c2.max_idle_timeout.unwrap().into_inner(), 5);
    assert_eq!(IdleTimeout::from_nanos(3_000_000_000).0.into_inner(), 3000);
}
