use quinn_proto::config::TransportConfig;
use quinn_proto::shared::ConnectionId;
use quinn_proto::token::ResetToken;
use quinn_proto::transport_error::Code;
use quinn_proto::transport_parameters::{
    Error, PreferredAddress, SocketAddrV4, SocketAddrV6, TransportParameters,
};
use quinn_proto::varint::VarInt;
use quinn_proto::Side;

fn same_params(a: &TransportParameters, b: &TransportParameters) {
    for k in 0..11 {
        assert_eq!(a.int_param(k).into_inner(), b.int_param(k).into_inner());
    }
    assert_eq!(a.disable_active_migration, b.disable_active_migration);
    assert_eq!(
        a.max_datagram_frame_size.map(|x| x.into_inner()),
        b.max_datagram_frame_size.map(|x| x.into_inner())
    );
    assert_eq!(a.initial_src_cid, b.initial_src_cid);
    assert_eq!(a.grease_quic_bit, b.grease_quic_bit);
    assert_eq!(a.min_ack_delay.map(|x| x.into_inner()), b.min_ack_delay.map(|x| x.into_inner()));
    assert_eq!(a.original_dst_cid, b.original_dst_cid);
    assert_eq!(a.retry_src_cid, b.retry_src_cid);
    assert_eq!(a.stateless_reset_token.is_some(), b.stateless_reset_token.is_some());
    if let (Some(x), Some(y)) = (a.stateless_reset_token, b.stateless_reset_token) {
        assert!(x.same_as(&y));
    }
    assert_eq!(a.preferred_address.is_some(), b.preferred_address.is_some());
    if let (Some(x), Some(y)) = (a.preferred_address, b.preferred_address) {
        assert_eq!(x.address_v4, y.address_v4);
        assert_eq!(x.address_v6, y.address_v6);
        assert_eq!(x.connection_id, y.connection_id);
        assert!(x.stateless_reset_token.same_as(&y.stateless_reset_token));
    }
}

#[test]
fn params_roundtrip_default() {
    let p = TransportParameters::default();
    let mut buf = Vec::new();
    p.write(&mut buf);
    let q = TransportParameters::read(Side::Client, &buf).unwrap();
    same_params(&p, &q);
}

#[test]
fn params_roundtrip_server_params() {
    let mut p = TransportParameters::default();
    p.initial_src_cid = Some(ConnectionId::new(&[1, 2, 3, 4]));
    p.original_dst_cid = Some(ConnectionId::new(&[9; 8]));
    p.retry_src_cid = Some(ConnectionId::new(&[]));
    p.stateless_reset_token = Some(ResetToken::from_bytes([0xab; 16]));
    p.initial_max_data = VarInt::from_u32(1_000_000);
    p.max_idle_timeout = VarInt::from_u32(30_000);
    p.initial_max_streams_bidi = VarInt::from_u32(100);
    p.max_datagram_frame_size = Some(VarInt::from_u32(1200));
    p.min_ack_delay = Some(VarInt::from_u32(1000));
    p.grease_quic_bit = true;
    p.disable_active_migration = true;
    p.preferred_address = Some(PreferredAddress {
        address_v4: Some(SocketAddrV4 { ip: [127, 0, 0, 1], port: 42 }),
        address_v6: None,
        connection_id: ConnectionId::new(&[5; 8]),
        stateless_reset_token: ResetToken::from_bytes([0x11; 16]),
    });
    let mut buf = Vec::new();
    p.write(&mut buf);
    let q = TransportParameters::read(Side::Client, &buf).unwrap();
    same_params(&p, &q);
}

#[test]
fn params_server_only_rejected_by_server() {
    let mut p = TransportParameters::default();
    p.original_dst_cid = Some(ConnectionId::new(&[9; 8]));
    let mut buf = Vec::new();
    p.write(&mut buf);
    assert_eq!(TransportParameters::read(Side::Server, &buf).unwrap_err(), Error::IllegalValue);
}

#[test]
fn params_illegal_ack_delay_exponent() {
    let mut p = TransportParameters::default();
    p.ack_delay_exponent = VarInt::from_u32(21);
    let mut buf = Vec::new();
    p.write(&mut buf);
    assert_eq!(TransportParameters::read(Side::Client, &buf).unwrap_err(), Error::IllegalValue);
}

#[test]
fn params_malformed_truncated() {
    let mut p = TransportParameters::default();
    p.initial_max_data = VarInt::from_u32(1_000_000);
    let mut buf = Vec::new();
    p.write(&mut buf);
    // the first parameter is the integer one; cut its value short
    assert_eq!(TransportParameters::read(Side::Client, &buf[..3]).unwrap_err(), Error::Malformed);
}

#[test]
fn params_duplicate_is_malformed() {
    // max_idle_timeout twice
    let buf = [0x01, 0x01, 0x05, 0x01, 0x01, 0x06];
    assert_eq!(TransportParameters::read(Side::Client, &buf).unwrap_err(), Error::Malformed);
}

#[test]
fn params_unknown_is_skipped() {
    let buf = [0x40, 0xb6, 0x02, 0xaa, 0xbb, 0x01, 0x01, 0x05];
    let p = TransportParameters::read(Side::Client, &buf).unwrap();
    assert_eq!(p.max_idle_timeout.into_inner(), 5);
}

#[test]
fn params_error_to_transport_error() {
    let e = Error::Malformed.into_transport_error();
    assert_eq!(e.code, Code::TRANSPORT_PARAMETER_ERROR());
    assert_eq!(e.reason, "malformed");
    let e = Error::IllegalValue.into_transport_error();
    assert_eq!(e.reason, "illegal value");
}

#[test]
fn params_new_from_config() {
    let config = TransportConfig::default();
    let p = TransportParameters::new(&config, 8, ConnectionId::new(&[1; 8]));
    assert_eq!(p.initial_max_streams_bidi.into_inner(), 100);
    assert_eq!(p.initial_max_stream_data_bidi_remote.into_inner(), 1_250_000);
    assert_eq!(p.max_idle_timeout.into_inner(), 10_000);
    assert_eq!(p.min_ack_delay.unwrap().into_inner(), 1000);
    assert_eq!(p.active_connection_id_limit.into_inner(), 5);
    assert_eq!(p.issue_cids_limit(), 5);
    let p0 = TransportParameters::new(&config, 0, ConnectionId::new(&[]));
    assert_eq!(p0.active_connection_id_limit.into_inner(), 2);
}

#[test]
fn params_resumption_checks() {
    let a = TransportParameters::default();
    let mut b = TransportParameters::default();
    assert!(a.validate_resumption_from(&b).is_ok());
    b.initial_max_data = VarInt::from_u32(10);
    let e = a.validate_resumption_from(&b).unwrap_err();
    assert_eq!(e.code, Code::PROTOCOL_VIOLATION());
    assert_eq!(e.reason, "0-RTT accepted with incompatible transport parameters");
    assert!(b.validate_resumption_from(&a).is_ok());
}

#[test]
fn preferred_address_without_address_is_illegal() {
    let pa = PreferredAddress {
        address_v4: None,
        address_v6: None,
        connection_id: ConnectionId::new(&[5; 8]),
        stateless_reset_token: ResetToken::from_bytes([0x11; 16]),
    };
    let mut buf = Vec::new();
    pa.write(&mut buf);
    assert_eq!(buf.len(), pa.wire_size() as usize);
    assert_eq!(PreferredAddress::read(&buf).unwrap_err(), Error::IllegalValue);
    let pa6 = PreferredAddress {
        address_v6: Some(SocketAddrV6 { ip: [1; 16], port: 443 }),
        ..pa
    };
    let mut buf = Vec::new();
    pa6.write(&mut buf);
    let (back, n) = PreferredAddress::read(&buf).unwrap();
    assert_eq!(n, buf.len());
    assert_eq!(back.address_v6, pa6.address_v6);
}
