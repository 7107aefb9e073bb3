use quinn_proto::frame::{AckFrequency, Crypto, EcnCounts, Frame, Iter, NewConnectionId, Stream, Type};
use quinn_proto::shared::{ConnectionId, EcnCodepoint};
use quinn_proto::token::ResetToken;
use quinn_proto::transport_error::Code;
use quinn_proto::varint::VarInt;
use quinn_proto::StreamId;

#[test]
fn frame_iter_empty_payload_is_protocol_violation() {
    let e = Iter::new(Vec::new()).err().unwrap();
    assert_eq!(e.code, Code::PROTOCOL_VIOLATION());
    assert_eq!(e.reason, "packet payload is empty");
}

#[test]
fn frame_iter_padding_and_stream() {
    // PADDING, then STREAM with OFF and LEN bits: id 4, offset 0x10, length 3
    let payload = vec![0x00, 0x0e, 0x04, 0x10, 0x03, b'a', b'b', b'c'];
    let mut it = Iter::new(payload).unwrap();
    assert!(matches!(it.next(), Some(Ok(Frame::Padding))));
    match it.next() {
        Some(Ok(Frame::Stream(s))) => {
            assert_eq!(s.id, StreamId(4));
            assert_eq!(s.offset, 0x10);
            assert!(!s.fin);
            assert_eq!(s.data, b"abc".to_vec());
        }
        _ => panic!("expected a stream frame"),
    }
    assert!(it.next().is_none());
}

#[test]
fn frame_iter_stream_to_end_with_fin() {
    // STREAM with FIN only: id 1, data runs to the end of the payload
    let payload = vec![0x09, 0x01, b'x', b'y'];
    let mut it = Iter::new(payload).unwrap();
    match it.next() {
        Some(Ok(Frame::Stream(s))) => {
            assert_eq!(s.id, StreamId(1));
            assert_eq!(s.offset, 0);
            assert!(s.fin);
            assert_eq!(s.data, b"xy".to_vec());
        }
        _ => panic!("expected a stream frame"),
    }
    assert!(it.next().is_none());
}

#[test]
fn frame_iter_unknown_type_ends_iteration() {
    let payload = vec![0x00, 0x1e, 0x00];
    let mut it = Iter::new(payload).unwrap();
    assert!(matches!(it.next(), Some(Ok(Frame::Padding))));
    match it.next() {
        Some(Err(e)) => {
            assert_eq!(e.ty, Some(Type::HANDSHAKE_DONE()));
            assert_eq!(e.reason, "invalid frame ID");
            let te = e.into_transport_error();
            assert_eq!(te.code, Code::FRAME_ENCODING_ERROR());
            assert_eq!(te.frame, Some(Type::HANDSHAKE_DONE()));
        }
        _ => panic!("expected an error"),
    }
    assert!(it.next().is_none());
}

#[test]
fn frame_iter_truncated_stream() {
    let payload = vec![0x0a, 0x04, 0x05, b'a'];
    let mut it = Iter::new(payload).unwrap();
    match it.next() {
        Some(Err(e)) => {
            assert_eq!(e.ty, Some(Type(0x0a)));
            assert_eq!(e.reason, "unexpected end");
        }
        _ => panic!("expected an error"),
    }
    assert!(it.next().is_none());
}

#[test]
fn frame_type_of_stream_frames() {
    let f = Frame::Stream(Stream { id: StreamId(0), offset: 0, fin: false, data: Vec::new() });
    assert_eq!(f.ty(), Type(0x08));
    let f = Frame::Stream(Stream { id: StreamId(0), offset: 7, fin: true, data: Vec::new() });
    assert_eq!(f.ty(), Type(0x0d));
    assert_eq!(Frame::Ping.ty(), Type::PING());
    assert!(Type(0x0f).stream().unwrap().len());
    assert!(Type(0x0c).stream().unwrap().off());
    assert!(Type(0x07).stream().is_none());
    assert!(Type(0x31).datagram().is_some());
}

#[test]
fn crypto_frame_encoding() {
    let f = Crypto { offset: 0x40, data: vec![1, 2, 3] };
    let mut buf = Vec::new();
    f.encode(&mut buf);
    assert_eq!(buf, vec![0x06, 0x40, 0x40, 0x03, 1, 2, 3]);
}

#[test]
fn ack_frequency_frame_encoding() {
    let f = AckFrequency {
        sequence: VarInt::from_u32(1),
        ack_eliciting_threshold: VarInt::from_u32(2),
        request_max_ack_delay: VarInt::from_u32(25_000),
        reordering_threshold: VarInt::from_u32(3),
    };
    let mut buf = Vec::new();
    f.encode(&mut buf);
    assert_eq!(buf, vec![0x40, 0xaf, 0x01, 0x02, 0x80, 0x00, 0x61, 0xa8, 0x03]);
}

#[test]
fn new_connection_id_frame_encoding() {
    let f = NewConnectionId {
        sequence: 2,
        retire_prior_to: 1,
        id: ConnectionId::new(&[0xaa, 0xbb]),
        reset_token: ResetToken::from_bytes([7; 16]),
    };
    let mut buf = Vec::new();
    f.encode(&mut buf);
    let mut expected = vec![0x18, 0x02, 0x01, 0x02, 0xaa, 0xbb];
    expected.extend_from_slice(&[7; 16]);
    assert_eq!(buf, expected);
}

#[test]
fn ecn_counts_add() {
    let mut c = EcnCounts::ZERO();
    c.add_assign(EcnCodepoint::Ect0);
    c.add_assign(EcnCodepoint::Ce);
    c.add_assign(EcnCodepoint::Ce);
    assert_eq!(c, EcnCounts { ect0: 1, ect1: 0, ce: 2 });
}
