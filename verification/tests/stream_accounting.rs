use quinn_proto::assembler::Assembler;
use quinn_proto::connection::{ConnectionCore, ConnectionError, Event, State};
use quinn_proto::endpoint::EndpointEvent;
use quinn_proto::transport_error::Error as TransportError;
use quinn_proto::frame::Stream;
use quinn_proto::recv::{Recv, RecvState};
use quinn_proto::send::{Send, SendState};
use quinn_proto::send_buffer::SendBuffer;
use quinn_proto::spaces::Retransmits;
use quinn_proto::streams::{StreamEvent, StreamHalf, WriteError};
use quinn_proto::streams_state::StreamsState;
use quinn_proto::transport_error::Code;
use quinn_proto::transport_parameters::TransportParameters;
use quinn_proto::varint::VarInt;
use quinn_proto::{Dir, Side, StreamId};

fn server_state(bi: u32, uni: u32) -> StreamsState {
    StreamsState::new(
        Side::Server,
        VarInt::from_u32(uni),
        VarInt::from_u32(bi),
        1000,
        VarInt::from_u32(8000),
        VarInt::from_u32(4000),
    )
}

fn frame(id: StreamId, offset: u64, data: &[u8], fin: bool) -> Stream {
    Stream { id, offset, fin, data: data.to_vec() }
}

#[test]
fn new_allows_peer_streams() {
    let s = server_state(2, 3);
    // the client may open bidirectional streams 0 and 4, unidirectional 2, 6 and 10
    assert_eq!(s.send.len(), 2);
    assert_eq!(s.recv.len(), 5);
    assert!(s.send.contains_key(&0) && s.send.contains_key(&4));
    assert!(s.recv.contains_key(&2) && s.recv.contains_key(&10));
    assert!(!s.recv.contains_key(&14));
    assert_eq!(s.max_remote, [2, 3]);
    assert_eq!(s.local_max_data, 8000);
}

#[test]
fn open_respects_limit() {
    let mut s = server_state(0, 0);
    assert_eq!(s.open(false, Dir::Bi), None);
    assert!(s.received_max_streams(Dir::Bi, 1).is_ok());
    assert_eq!(s.poll(), Some(StreamEvent::Available { dir: Dir::Bi }));
    let id = s.open(false, Dir::Bi).unwrap();
    // the server's first bidirectional stream
    assert_eq!(id, StreamId(1));
    assert!(s.send.contains_key(&1) && s.recv.contains_key(&1));
    assert_eq!(s.send_streams, 1);
    assert_eq!(s.open(false, Dir::Bi), None);
    assert_eq!(s.open(true, Dir::Uni), None);
}

#[test]
fn unrepresentable_stream_limit() {
    let mut s = server_state(0, 0);
    let e = s.received_max_streams(Dir::Uni, (1 << 60) + 1).unwrap_err();
    assert_eq!(e.code, Code::FRAME_ENCODING_ERROR());
}

#[test]
fn freeing_peer_stream_opens_another() {
    let mut s = server_state(1, 0);
    // stream 0 is the peer's only bidirectional stream; drop both halves
    s.send_streams = 1;
    s.send.remove(&0);
    s.stream_freed(StreamId(0), StreamHalf::Send);
    assert_eq!(s.max_remote, [1, 0]);
    s.recv.remove(&0);
    s.stream_freed(StreamId(0), StreamHalf::Recv);
    assert_eq!(s.max_remote, [2, 0]);
    assert_eq!(s.allocated_remote_count, [1, 0]);
    assert!(s.send.contains_key(&4) && s.recv.contains_key(&4));
}

#[test]
fn reset_acked_frees_send_half() {
    let mut s = server_state(0, 0);
    s.received_max_streams(Dir::Uni, 1).unwrap();
    let id = s.open(false, Dir::Uni).unwrap();
    assert_eq!(id, StreamId(3));
    let mut st = Send::new(VarInt::from_u32(10));
    st.state = SendState::ResetSent;
    s.send.insert(id.0, Some(st));
    s.reset_acked(id);
    assert!(!s.send.contains_key(&3));
    assert_eq!(s.send_streams, 0);
}

#[test]
fn reset_acked_ignores_live_stream() {
    let mut s = server_state(0, 0);
    s.received_max_streams(Dir::Uni, 1).unwrap();
    let id = s.open(false, Dir::Uni).unwrap();
    s.send.insert(id.0, Some(Send::new(VarInt::from_u32(10))));
    s.reset_acked(id);
    assert!(s.send.contains_key(&3));
    assert_eq!(s.send_streams, 1);
}

#[test]
fn zero_rtt_rejection_drops_local_streams() {
    let mut s = server_state(1, 0);
    s.received_max_streams(Dir::Bi, 2).unwrap();
    s.open(false, Dir::Bi).unwrap();
    s.open(false, Dir::Bi).unwrap();
    s.zero_rtt_rejected();
    assert_eq!(s.next, [0, 0]);
    assert_eq!(s.send_streams, 0);
    assert!(!s.send.contains_key(&1) && !s.send.contains_key(&5));
    // the peer's stream stays
    assert!(s.send.contains_key(&0));
}

#[test]
fn set_params_updates_peer_streams() {
    let mut s = server_state(1, 0);
    s.send.insert(0, Some(Send::new(VarInt::from_u32(0))));
    let mut p = TransportParameters::default();
    p.initial_max_stream_data_bidi_local = VarInt::from_u32(777);
    p.initial_max_data = VarInt::from_u32(5000);
    p.initial_max_streams_bidi = VarInt::from_u32(3);
    s.set_params(&p);
    assert_eq!(s.send.get(&0).unwrap().as_ref().unwrap().max_data, 777);
    assert_eq!(s.max_data, 5000);
    assert_eq!(s.max, [3, 0]);
}

#[test]
fn stream_frame_on_own_uni_stream_is_refused() {
    let mut s = server_state(0, 0);
    let e = s.received(frame(StreamId(3), 0, b"", false), 0).unwrap_err();
    assert_eq!(e.code, Code::STREAM_STATE_ERROR());
    let e = s.received(frame(StreamId(2), 0, b"", false), 0).unwrap_err();
    assert_eq!(e.code, Code::STREAM_LIMIT_ERROR());
}

#[test]
fn empty_stream_frame_opens_peer_stream() {
    let mut s = server_state(2, 0);
    let r = s.received(frame(StreamId(4), 0, b"", false), 0).unwrap();
    assert!(!r.0);
    assert_eq!(s.next_remote, [2, 0]);
    assert_eq!(s.poll(), Some(StreamEvent::Opened { dir: Dir::Bi }));
    assert!(s.recv.get(&4).unwrap().is_some());
    // an earlier stream of the peer is now just readable
    s.received(frame(StreamId(0), 0, b"", true), 0).unwrap();
    assert_eq!(s.poll(), Some(StreamEvent::Readable { id: StreamId(0) }));
    assert_eq!(s.poll(), None);
}

#[test]
fn stream_frame_beyond_flow_control() {
    let mut s = server_state(1, 0);
    let mut r = Recv::new(4000);
    r.stopped = true;
    s.recv.insert(0, Some(r));
    let e = s.received(frame(StreamId(0), 5000, b"", false), 0).unwrap_err();
    assert_eq!(e.code, Code::FLOW_CONTROL_ERROR());
}

#[test]
fn recv_ingest_final_size() {
    let mut r = Recv::new(100);
    assert_eq!(r.ingest(frame(StreamId(0), 10, b"", true), 0, 0, 100).unwrap(), (10, false));
    assert_eq!(r.state, RecvState::Recv { size: Some(10) });
    assert!(!r.can_send_flow_control());
    let e = r.ingest(frame(StreamId(0), 12, b"", false), 0, 10, 100).unwrap_err();
    assert_eq!(e.code, Code::FINAL_SIZE_ERROR());
    let e = r.ingest(frame(StreamId(0), 1 << 62, b"", false), 0, 10, 100).unwrap_err();
    assert_eq!(e.code, Code::FLOW_CONTROL_ERROR());
}

#[test]
fn recv_credit() {
    let r = Recv::new(100);
    assert_eq!(r.credit_consumed_by(40, 10, 60).unwrap(), 40);
    assert!(r.credit_consumed_by(51, 10, 60).is_err());
    assert!(r.credit_consumed_by(101, 0, 1000).is_err());
    assert!(r.final_offset_unknown());
    assert!(r.is_receiving());
    assert_eq!(r.final_offset(), None);
}

#[test]
fn send_buffer_accounting() {
    let mut b = SendBuffer::new();
    assert!(b.is_fully_acked());
    assert!(!b.has_unsent_data());
    b.write(vec![1, 2, 3]);
    b.write(vec![4]);
    assert_eq!(b.offset(), 4);
    assert!(b.has_unsent_data());
    assert!(!b.is_fully_acked());
    b.retransmit_all_for_0rtt();
    assert!(b.has_unsent_data());
}

#[test]
fn send_half_states() {
    let mut s = Send::new(VarInt::from_u32(9));
    assert_eq!(s.max_data, 9);
    assert!(!s.is_reset());
    assert!(!s.is_pending());
    s.fin_pending = true;
    assert!(s.is_pending());
    s.state = SendState::ResetSent;
    assert!(s.is_reset());
}

#[test]
fn assembler_keeps_end() {
    let mut a = Assembler::new();
    a.insert(0, Vec::new(), 0);
    assert_eq!(a.bytes_read(), 0);
}

#[test]
fn retransmit_for_0rtt_queues_unsent_streams() {
    let mut s = StreamsState::new(
        Side::Client,
        VarInt::from_u32(0),
        VarInt::from_u32(0),
        1000,
        VarInt::from_u32(8000),
        VarInt::from_u32(4000),
    );
    s.received_max_streams(Dir::Uni, 2).unwrap();
    let a = s.open(false, Dir::Uni).unwrap();
    let b = s.open(false, Dir::Uni).unwrap();
    assert_eq!((a, b), (StreamId(2), StreamId(6)));
    let mut st = Send::new(VarInt::from_u32(100));
    st.fin_pending = true;
    s.send.insert(a.0, Some(st));
    s.send.insert(b.0, Some(Send::new(VarInt::from_u32(100))));
    s.retransmit_all_for_0rtt();
    // stream 2 was already pending; stream 6 had nothing to resend
    assert!(s.pending.is_empty());
    assert!(!s.can_send_stream_data());
}

#[test]
fn max_stream_id_queueing() {
    let mut s = server_state(16, 0);
    let mut pending = Retransmits::default();
    assert!(!s.queue_max_stream_id(&mut pending));
    s.max_remote[0] = 19;
    assert!(s.queue_max_stream_id(&mut pending));
    assert!(pending.max_stream_id[0]);
}

#[test]
fn flow_control_credit() {
    let mut s = server_state(0, 0);
    s.receive_window_shrink_debt = 100;
    assert!(!s.add_read_credits(50).0);
    assert_eq!(s.receive_window_shrink_debt, 50);
    assert!(s.add_read_credits(1050).0);
    assert_eq!(s.local_max_data, 9000);
    assert!(!s.can_send_flow_control(StreamId(0)));
}

#[test]
fn write_budget_follows_flow_control() {
    let mut s = server_state(1, 0);
    // the connection is closed
    assert_eq!(s.write_budget(StreamId(0), true), Err(WriteError::Blocked));
    // no such stream
    assert_eq!(s.write_budget(StreamId(8), false), Err(WriteError::ClosedStream));
    // the peer granted no connection-level credit yet
    assert_eq!(s.max_data, 0);
    assert_eq!(s.write_budget(StreamId(0), false), Err(WriteError::Blocked));
    assert_eq!(s.connection_blocked, vec![StreamId(0)]);
    assert!(s.send[&0].as_ref().unwrap().connection_blocked);
    // a second blocked write does not list the stream twice
    assert_eq!(s.write_budget(StreamId(0), false), Err(WriteError::Blocked));
    assert_eq!(s.connection_blocked.len(), 1);
    s.received_max_data(VarInt::from_u32(300));
    // the send window of 1000 leaves the peer's 300 as the limit
    assert_eq!(s.write_budget(StreamId(0), false), Ok(300));
}

#[test]
fn stateless_reset_drains_the_connection_once() {
    let mut core = ConnectionCore::new(State::Established);
    let mut streams = server_state(0, 0);
    core.on_packet_error(ConnectionError::Reset, 1_000, 500);
    assert!(core.state.is_drained());
    assert_eq!(core.error, Some(ConnectionError::Reset));
    assert_eq!(core.endpoint_events.len(), 1);
    assert!(matches!(core.endpoint_events[0], EndpointEvent::Drained));
    assert_eq!(core.close_timer, None);
    match core.poll(&mut streams) {
        Some(Event::ConnectionLost { reason }) => assert_eq!(reason, ConnectionError::Reset),
        _ => panic!("expected the loss of the connection"),
    }
    assert!(core.poll(&mut streams).is_none());
    // a second failure after draining does not tell the endpoint again
    core.on_packet_error(ConnectionError::Reset, 2_000, 500);
    assert_eq!(core.endpoint_events.len(), 1);
}

#[test]
fn transport_error_closes_and_arms_the_close_timer() {
    let mut core = ConnectionCore::new(State::Established);
    core.on_packet_error(
        ConnectionError::TransportError(TransportError::PROTOCOL_VIOLATION("bad")),
        1_000,
        500,
    );
    assert!(core.state.is_closed());
    assert!(!core.state.is_drained());
    assert_eq!(core.close_timer, Some(2_500));
    assert!(core.endpoint_events.is_empty());
}

#[test]
fn a_server_starts_its_handshake_knowing_the_remote_cid() {
    let server = ConnectionCore::handshaking(quinn_proto::Side::Server);
    let client = ConnectionCore::handshaking(quinn_proto::Side::Client);
    assert!(matches!(server.state, State::Handshake(ref h) if h.rem_cid_set));
    assert!(matches!(client.state, State::Handshake(ref h) if !h.rem_cid_set && h.client_hello.is_none()));
    assert!(server.error.is_none() && server.endpoint_events.is_empty());
}
