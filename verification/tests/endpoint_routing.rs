use quinn_proto::config::{ClientConfig, EndpointConfig};
use quinn_proto::connection::{queue_crypto, queue_crypto_flight, Handshake};
use quinn_proto::packet::{ProtectedInitialHeader, SpaceId};
use quinn_proto::packet_space::PacketSpace;
use quinn_proto::connection::{
    close_effects, handle_version_negotiate, packet_disposition, state_after_error,
    version_offered, ConnectionError, PacketDisposition, State,
};
use quinn_proto::default_supported_versions;
use quinn_proto::crypto::{CryptoError, HmacKey};
use quinn_proto::endpoint::{
    cids_exhausted, early_validate_first_packet, ConnectError, ConnectionHandle, DatagramEvent, Endpoint,
    EndpointEvent, FourTuple, IdentifierRequest, IpAddr, ServerLimits,
};
use quinn_proto::token::ResetToken;
use quinn_proto::shared::{ConnectionId, SocketAddr};
use quinn_proto::transport_error::{Code, Error as TransportError};
use quinn_proto::transport_parameters::{SocketAddrV4, SocketAddrV6};
use quinn_proto::Side;

fn client_addr() -> FourTuple {
    let mut ip = [0u8; 16];
    ip[15] = 2;
    FourTuple { remote: SocketAddr::V6(SocketAddrV6 { ip, port: 7890 }), local_ip: None }
}

fn server() -> Endpoint {
    Endpoint::new(
        8,
        default_supported_versions(),
        true,
        Some(ServerLimits {
            incoming_buffer_size: 10 << 20,
            incoming_buffer_size_total: 100 << 20,
            max_incoming: 1 << 16,
        }),
        20_000_000,
    )
}

#[test]
fn version_negotiate_server() {
    let mut server = server();
    let mut buf = Vec::new();
    let data = vec![
        0x80, 0x0a, 0x1a, 0x2a, 0x3a, 0x04, 0, 0, 0, 0, 0x04, 0, 0, 0, 0, 0x00,
    ];
    let event = server.handle(0, client_addr(), None, data, &RepeatKey, &mut buf);
    let Some(DatagramEvent::Response { destination, size, .. }) = event else {
        panic!("expected a response");
    };
    assert!(destination.same_as(&client_addr().remote));
    assert_eq!(size, buf.len());
    assert_ne!(buf[0] & 0x80, 0);
    assert_eq!(&buf[1..15], &[0, 0, 0, 0, 4, 0, 0, 0, 0, 4, 0, 0, 0, 0]);
    assert!(buf[15..].chunks(4).any(|x| {
        default_supported_versions().contains(&u32::from_be_bytes(x.try_into().unwrap()))
    }));
}

#[test]
fn version_negotiation_greases_and_lists_versions() {
    let mut server = server();
    let mut buf = Vec::new();
    let data = vec![0x80, 0x0a, 0x1a, 0x2a, 0x3a, 0x01, 7, 0x01, 9, 0x00];
    let event = server.handle_with_random(0, client_addr(), None, data, 0, &RepeatKey, &mut buf);
    assert!(matches!(event, Some(DatagramEvent::Response { size: 41, .. })));
    assert_eq!(buf[0], 0xc0);
    assert_eq!(&buf[1..9], &[0, 0, 0, 0, 1, 9, 1, 7]);
    assert_eq!(&buf[9..13], &[0x0a, 0x1a, 0x2a, 0x4a]);
    assert_eq!(&buf[13..17], &[0, 0, 0, 1]);
    assert!(version_offered(&buf[9..], 0xff00_001d));
}

#[test]
fn client_drops_unsupported_version() {
    let mut client = Endpoint::new(8, default_supported_versions(), true, None, 20_000_000);
    let mut buf = Vec::new();
    let data = vec![0x80, 0x0a, 0x1a, 0x2a, 0x3a, 0x00, 0x00, 0x00];
    assert!(client.handle(0, client_addr(), None, data, &RepeatKey, &mut buf).is_none());
    assert!(buf.is_empty());
}

fn initial_packet(len: usize) -> Vec<u8> {
    // Initial, version 1, 8-byte DCID, empty SCID, empty token, payload length to fill `len`
    let mut p = vec![0xc0, 0, 0, 0, 1, 8, 1, 2, 3, 4, 5, 6, 7, 8, 0, 0];
    let payload = len - p.len() - 2;
    p.push(0x40 | (payload >> 8) as u8);
    p.push(payload as u8);
    p.resize(len, 0);
    p
}

#[test]
fn new_initial_and_buffering() {
    let mut server = server();
    let mut buf = Vec::new();
    // too short for an Initial
    assert!(server.handle(0, client_addr(), None, initial_packet(600), &RepeatKey, &mut buf).is_none());
    let event = server.handle(1, client_addr(), None, initial_packet(1200), &RepeatKey, &mut buf);
    let Some(DatagramEvent::NewConnection(ev)) = event else {
        panic!("expected a new connection");
    };
    assert!(ev.first_decode.is_initial());
    let cid = ev.first_decode.dst_cid().clone();
    let idx = server.handle_first_packet(true, cid).unwrap();
    // further Initials for the same connection are buffered
    assert!(server.handle(2, client_addr(), None, initial_packet(1200), &RepeatKey, &mut buf).is_none());
    let b = server.take_incoming(idx);
    assert_eq!(b.total_bytes, 1200);
    assert_eq!(b.datagrams.len(), 1);
    assert!(buf.is_empty());
}

#[test]
fn registered_connection_receives_datagrams() {
    let mut server = server();
    let mut buf = Vec::new();
    let loc = ConnectionId::new(&[9; 8]);
    let ch = server.vacant_handle();
    assert_eq!(ch.0, 0);
    server.add_connection(ch, ConnectionId::new(&[]), loc, None, client_addr(), Side::Server);
    // short header packet to the registered CID
    let mut data = vec![0x40];
    data.extend_from_slice(&[9; 8]);
    data.extend_from_slice(&[0; 30]);
    match server.handle(0, client_addr(), None, data, &RepeatKey, &mut buf) {
        Some(DatagramEvent::ConnectionEvent(ch, ev)) => {
            assert_eq!(ch.0, 0);
            assert_eq!(ev.first_decode.len(), 39);
        }
        _ => panic!("expected a connection event"),
    }
}

#[test]
fn cid_exhaustion() {
    assert!(!cids_exhausted(0, 0));
    assert!(!cids_exhausted(8, 1 << 20));
    assert!(!cids_exhausted(1, 192));
    assert!(cids_exhausted(1, 193));
}

#[test]
fn early_validation() {
    let e = early_validate_first_packet(true, 0, 10, 8, true, 8).unwrap_err();
    assert_eq!(e.code, Code::CONNECTION_REFUSED());
    let e = early_validate_first_packet(false, 10, 10, 8, true, 8).unwrap_err();
    assert_eq!(e.code, Code::CONNECTION_REFUSED());
    let e = early_validate_first_packet(false, 0, 10, 4, false, 8).unwrap_err();
    assert_eq!(e.code, Code::PROTOCOL_VIOLATION());
    assert_eq!(e.reason, "invalid destination CID length");
    assert!(early_validate_first_packet(false, 0, 10, 4, true, 8).is_ok());
    assert!(early_validate_first_packet(false, 0, 10, 4, false, 4).is_ok());
}

#[test]
fn version_negotiation_on_client() {
    assert!(handle_version_negotiate(0, &[0, 0, 0, 1], 1).is_ok());
    assert_eq!(
        handle_version_negotiate(0, &[0x0a, 0x1a, 0x2a, 0x3a], 1),
        Err(ConnectionError::VersionMismatch)
    );
    assert!(handle_version_negotiate(2, &[0x0a, 0x1a, 0x2a, 0x3a], 1).is_ok());
    // a trailing partial version is ignored
    assert!(!version_offered(&[0, 0, 0], 0));
}

#[test]
fn connection_error_transitions() {
    assert!(matches!(state_after_error(&ConnectionError::Reset), State::Drained));
    assert!(matches!(state_after_error(&ConnectionError::VersionMismatch), State::Draining));
    let te = TransportError::PROTOCOL_VIOLATION("bad");
    assert!(matches!(state_after_error(&ConnectionError::TransportError(te)), State::Closed(_)));
    let fx = close_effects(false, false, &State::Drained);
    assert!(fx.close_common && !fx.set_close_timer && fx.drained);
    let fx = close_effects(true, false, &State::Draining);
    assert!(!fx.close_common && !fx.drained);
}

#[test]
fn packet_dispositions() {
    assert_eq!(
        packet_disposition(true, None, false, false, false, false),
        PacketDisposition::Fail(ConnectionError::Reset)
    );
    assert_eq!(packet_disposition(false, None, true, false, false, false), PacketDisposition::Discard);
    assert_eq!(packet_disposition(false, None, false, true, true, false), PacketDisposition::Discard);
    assert_eq!(packet_disposition(false, None, false, true, false, false), PacketDisposition::Process);
    let _ = IpAddr::V4([0; 4]);
}

/// A key whose signature of a message is the message repeated to 32 bytes
struct RepeatKey;

impl HmacKey for RepeatKey {
    fn sign(&self, data: &[u8], signature_out: &mut [u8]) {
        for (i, b) in signature_out.iter_mut().enumerate() {
            *b = if data.is_empty() { 0 } else { data[i % data.len()] };
        }
    }

    fn signature_len(&self) -> usize {
        32
    }

    fn verify(&self, _data: &[u8], _signature: &[u8]) -> Result<(), CryptoError> {
        Ok(())
    }
}

#[test]
fn reset_token_from_key() {
    let t = ResetToken::new(&RepeatKey, &ConnectionId::new(&[1, 2]));
    let mut enc = Vec::new();
    t.encode(&mut enc);
    assert_eq!(enc, vec![1, 2, 1, 2, 1, 2, 1, 2, 1, 2, 1, 2, 1, 2, 1, 2]);
}

#[test]
fn connection_table_lifecycle() {
    let mut server = server();
    let ch = server.vacant_handle();
    let loc = ConnectionId::new(&[7; 8]);
    assert!(server.claim_cid(ch, &loc));
    assert!(!server.claim_cid(ch, &loc));
    server.add_connection(
        ch,
        ConnectionId::new(&[5; 8]),
        loc,
        Some(ConnectionId::new(&[6; 8])),
        client_addr(),
        Side::Server,
    );
    server.route_initial(ch, &ConnectionId::new(&[5; 8]));
    assert_eq!(server.known_connections(), 1);
    assert_eq!(server.known_cids(), 1);
    assert_eq!(server.vacant_handle().0, 1);

    // the connection asks for two more identifiers
    let req = server.handle_event(ch, EndpointEvent::NeedIdentifiers { now: 10, n: 2 });
    assert_eq!(req, Some(IdentifierRequest { now: 10, count: 2 }));
    let a = ConnectionId::new(&[8; 8]);
    let b = ConnectionId::new(&[9; 8]);
    assert!(server.claim_cid(ch, &a) && server.claim_cid(ch, &b));
    let issued = server.issue_identifiers(ch, vec![a, b], &RepeatKey);
    assert_eq!(issued.len(), 2);
    // sequence numbers 0 and 1 went to the first CID and the preferred address's
    assert_eq!(issued[0].sequence, 2);
    assert_eq!(issued[1].sequence, 3);
    assert_eq!(issued[1].id, b);
    assert_eq!(server.known_cids(), 3);

    // retiring sequence 2 stops routing to `a` and asks for a replacement
    let req = server.handle_event(
        ch,
        EndpointEvent::RetireConnectionId { now: 20, seq: 2, allow_more_cids: true },
    );
    assert_eq!(req, Some(IdentifierRequest { now: 20, count: 1 }));
    assert_eq!(server.known_cids(), 2);
    // an unknown sequence number changes nothing
    let req = server.handle_event(
        ch,
        EndpointEvent::RetireConnectionId { now: 21, seq: 2, allow_more_cids: true },
    );
    assert_eq!(req, None);

    // a reset token from the peer
    let token = ResetToken::from_bytes([3; 16]);
    assert_eq!(
        server.handle_event(ch, EndpointEvent::ResetToken { remote: client_addr().remote, token }),
        None
    );

    // once drained, the connection's slot is free and its CIDs route nowhere
    assert_eq!(server.handle_event(ch, EndpointEvent::Drained), None);
    assert_eq!(server.known_connections(), 0);
    assert_eq!(server.known_cids(), 0);
    assert_eq!(server.vacant_handle().0, 0);
    // draining an unknown connection is harmless
    assert_eq!(server.handle_event(ConnectionHandle(5), EndpointEvent::Drained), None);
}

fn pending_incoming(server: &mut Endpoint) -> usize {
    let mut buf = Vec::new();
    let event = server.handle(1, client_addr(), None, initial_packet(1200), &RepeatKey, &mut buf);
    let Some(DatagramEvent::NewConnection(ev)) = event else {
        panic!("expected a new connection");
    };
    let cid = ev.first_decode.dst_cid().clone();
    let idx = server.handle_first_packet(true, cid).unwrap();
    assert!(server.handle(2, client_addr(), None, initial_packet(1200), &RepeatKey, &mut buf).is_none());
    idx
}

#[test]
fn accept_authenticated_incoming() {
    let mut server = server();
    let idx = pending_incoming(&mut server);
    let b = server.accept_incoming(idx, true).unwrap();
    assert_eq!(b.total_bytes, 1200);
    assert_eq!(b.orig_dst_cid, ConnectionId::new(&[1, 2, 3, 4, 5, 6, 7, 8]));
    // the route to the pending connection is gone: a new Initial starts over
    let mut buf = Vec::new();
    assert!(matches!(
        server.handle(3, client_addr(), None, initial_packet(1200), &RepeatKey, &mut buf),
        Some(DatagramEvent::NewConnection(_))
    ));
}

#[test]
fn accept_unauthenticated_incoming() {
    let mut server = server();
    let idx = pending_incoming(&mut server);
    match server.accept_incoming(idx, false) {
        Err(ConnectionError::TransportError(e)) => {
            assert_eq!(e.code, Code::PROTOCOL_VIOLATION());
            assert_eq!(e.reason, "authentication failed");
        }
        _ => panic!("expected a protocol violation"),
    }
}

#[test]
fn accept_refused_when_cids_exhausted() {
    let mut server = Endpoint::new(
        1,
        default_supported_versions(),
        true,
        Some(ServerLimits {
            incoming_buffer_size: 10 << 20,
            incoming_buffer_size_total: 100 << 20,
            max_incoming: 1 << 16,
        }),
        20_000_000,
    );
    for b in 0..=192u8 {
        assert!(server.claim_cid(ConnectionHandle(0), &ConnectionId::new(&[b])));
    }
    // the Initial's 8-byte CID is still accepted as a new connection by `handle_first_packet`
    let mut buf = Vec::new();
    let event = server.handle(1, client_addr(), None, initial_packet(1200), &RepeatKey, &mut buf);
    let Some(DatagramEvent::NewConnection(ev)) = event else {
        panic!("expected a new connection");
    };
    let cid = ev.first_decode.dst_cid().clone();
    let idx = server.handle_first_packet(true, cid).unwrap();
    assert!(matches!(server.accept_incoming(idx, true), Err(ConnectionError::CidsExhausted)));
}

#[test]
fn first_initial_crypto_data_is_kept_as_client_hello() {
    let mut space = PacketSpace::new(0);
    let mut state = State::Handshake(Handshake {
        rem_cid_set: false,
        expected_token: Vec::new(),
        client_hello: None,
    });
    queue_crypto(SpaceId::Initial, &mut space, &mut state, Side::Client, vec![1, 2, 3]);
    queue_crypto(SpaceId::Initial, &mut space, &mut state, Side::Client, vec![4, 5]);
    assert_eq!(space.crypto_offset, 5);
    assert_eq!(space.pending.crypto.len(), 2);
    assert_eq!(space.pending.crypto[1].offset, 3);
    assert_eq!(space.pending.crypto[1].data, vec![4, 5]);
    match state {
        State::Handshake(h) => assert_eq!(h.client_hello, Some(vec![1, 2, 3])),
        _ => panic!("still handshaking"),
    }
    let mut server_space = PacketSpace::new(0);
    let mut server_state = State::Handshake(Handshake {
        rem_cid_set: true,
        expected_token: Vec::new(),
        client_hello: None,
    });
    queue_crypto(SpaceId::Initial, &mut server_space, &mut server_state, Side::Server, vec![9]);
    match server_state {
        State::Handshake(h) => assert_eq!(h.client_hello, None),
        _ => panic!("still handshaking"),
    }
}

#[test]
fn endpoint_config_defaults() {
    let config = EndpointConfig::new(RepeatKey);
    assert_eq!(config.get_max_udp_payload_size(), 1472);
    assert_eq!(config.supported_versions, default_supported_versions());
    assert!(config.grease_quic_bit);
    assert_eq!(config.rng_seed, None);
    assert_eq!(config.min_reset_interval, 20_000_000);
}

#[test]
fn stateless_reset_limit() {
    let mut server = server();
    let remote = FourTuple {
        remote: SocketAddr::V4(SocketAddrV4 { ip: [127, 0, 0, 1], port: 42 }),
        local_ip: None,
    };
    let t: u64 = 1_000_000_000;
    let mut buf = Vec::new();
    let event = server.handle(t, remote, None, vec![0u8; 1024], &RepeatKey, &mut buf);
    assert!(matches!(event, Some(DatagramEvent::Response { .. })));
    let event = server.handle(t, remote, None, vec![0u8; 1024], &RepeatKey, &mut buf);
    assert!(event.is_none());
    let event = server.handle(t + 20_000_000 - 1, remote, None, vec![0u8; 1024], &RepeatKey, &mut buf);
    assert!(event.is_none());
    let event = server.handle(t + 20_000_000, remote, None, vec![0u8; 1024], &RepeatKey, &mut buf);
    assert!(matches!(event, Some(DatagramEvent::Response { .. })));
}

#[test]
fn stateless_reset_is_shorter_than_the_inciting_datagram() {
    let mut client = Endpoint::new(8, default_supported_versions(), true, None, 20_000_000);
    let mut buf = Vec::new();
    let mut data = vec![0x40];
    data.extend_from_slice(&[7; 8]);
    data.extend_from_slice(&[0; 41]);
    match client.handle(0, client_addr(), None, data, &RepeatKey, &mut buf) {
        Some(DatagramEvent::Response { destination, size, .. }) => {
            assert!(destination.same_as(&client_addr().remote));
            assert_eq!(size, buf.len());
            // at most one byte below the 50 received, with a full 25 bytes of padding at most
            assert!(size < 50);
            assert!(size >= 25 + 16);
            assert_eq!(buf[0] & 0xc0, 0x40);
            // the token: the signature of the CID by the reset key
            assert_eq!(&buf[size - 16..], &[7; 16]);
        }
        _ => panic!("expected a stateless reset"),
    }
    // too small to be answered
    let mut small = vec![0x40];
    small.extend_from_slice(&[7; 8]);
    small.extend_from_slice(&[0; 12]);
    let mut buf2 = Vec::new();
    assert!(client.handle(100_000_000, client_addr(), None, small, &RepeatKey, &mut buf2).is_none());
    assert!(buf2.is_empty());
}

#[test]
fn pending_attempts_are_counted_by_live_buffers() {
    let mut server = Endpoint::new(
        8,
        default_supported_versions(),
        true,
        Some(ServerLimits {
            incoming_buffer_size: 10 << 20,
            incoming_buffer_size_total: 100 << 20,
            max_incoming: 1,
        }),
        20_000_000,
    );
    let header = ProtectedInitialHeader {
        dst_cid: ConnectionId::new(&[1, 2, 3, 4, 5, 6, 7, 8]),
        src_cid: ConnectionId::new(&[]),
        token_pos: 0..0,
        len: 0,
        version: 1,
    };
    assert!(server.early_validate_first_packet(&header).is_ok());
    let idx = server.handle_first_packet(true, ConnectionId::new(&[1, 2, 3, 4, 5, 6, 7, 8])).unwrap();
    assert_eq!(server.pending_incoming(), 1);
    let e = server.early_validate_first_packet(&header).unwrap_err();
    assert_eq!(e.code, Code::CONNECTION_REFUSED());
    server.take_incoming(idx);
    assert_eq!(server.pending_incoming(), 0);
    assert!(server.early_validate_first_packet(&header).is_ok());
}

#[test]
fn crypto_flight_is_contiguous() {
    let mut space = PacketSpace::new(0);
    let mut state = State::Handshake(Handshake {
        rem_cid_set: false,
        expected_token: Vec::new(),
        client_hello: None,
    });
    let flight = vec![vec![1, 2, 3], Vec::new(), vec![4], vec![5, 6]];
    queue_crypto_flight(SpaceId::Initial, &mut space, &mut state, Side::Client, &flight);
    assert_eq!(space.crypto_offset, 6);
    let frames = &space.pending.crypto;
    assert_eq!(frames.len(), 3);
    assert_eq!((frames[0].offset, frames[1].offset, frames[2].offset), (0, 3, 4));
    match state {
        State::Handshake(h) => assert_eq!(h.client_hello, Some(vec![1, 2, 3])),
        _ => panic!("still handshaking"),
    }
}

#[test]
fn connect_refuses_unknown_versions() {
    let mut client = Endpoint::new(8, default_supported_versions(), true, None, 20_000_000);
    let mut config = ClientConfig::new();
    config.version(0x0a1a_2a3a);
    let loc = ConnectionId::new(&[3; 8]);
    let r = client.connect(&config, client_addr().remote, ConnectionId::new(&[4; 8]), loc);
    assert_eq!(r.err(), Some(ConnectError::UnsupportedVersion));
    assert_eq!(client.known_connections(), 0);
    config.version(1);
    let (ch, params) = client
        .connect(&config, client_addr().remote, ConnectionId::new(&[4; 8]), loc)
        .unwrap();
    assert_eq!(ch.0, 0);
    assert_eq!(client.known_connections(), 1);
    assert_eq!(params.initial_src_cid, Some(loc));
}
