use quinn_proto::config::TransportConfig;
use quinn_proto::connection::max_datagram_size;
use quinn_proto::crypto::{CryptoError, HmacKey};
use quinn_proto::default_supported_versions;
use quinn_proto::endpoint::{accepted_params, PreferredAddressConfig};
use quinn_proto::packet::{FixedLengthConnectionIdParser, PartialDecode, SpaceId};
use quinn_proto::packet_crypto::{
    header_key_source, is_stateless_reset, unprotect_header, HeaderKeySource, UnprotectOutcome,
};
use quinn_proto::shared::ConnectionId;
use quinn_proto::token::ResetToken;
use quinn_proto::transport_parameters::SocketAddrV4;
use quinn_proto::varint::VarInt;

/// A key that signs with a constant
struct ConstKey;

impl HmacKey for ConstKey {
    fn sign(&self, _data: &[u8], signature_out: &mut [u8]) {
        for b in signature_out.iter_mut() {
            *b = 0x5a;
        }
    }

    fn signature_len(&self) -> usize {
        32
    }

    fn verify(&self, _data: &[u8], _signature: &[u8]) -> Result<(), CryptoError> {
        Err(CryptoError)
    }
}

#[test]
fn key_source_choice() {
    assert_eq!(header_key_source(true, false, Some(SpaceId::Data), [true; 3]), None);
    assert_eq!(
        header_key_source(true, true, Some(SpaceId::Data), [false; 3]),
        Some(HeaderKeySource::ZeroRtt)
    );
    assert_eq!(header_key_source(false, true, Some(SpaceId::Handshake), [true, false, true]), None);
    assert_eq!(
        header_key_source(false, false, Some(SpaceId::Initial), [true, false, false]),
        Some(HeaderKeySource::Space(SpaceId::Initial))
    );
    assert_eq!(header_key_source(false, false, None, [false; 3]), Some(HeaderKeySource::Unprotected));
}

#[test]
fn stateless_reset_detection() {
    let token = ResetToken::from_bytes([7; 16]);
    let mut d = vec![0x40; 5];
    d.extend_from_slice(&[7; 16]);
    assert!(is_stateless_reset(&d, Some(token)));
    assert!(!is_stateless_reset(&d[1..], Some(token)));
    assert!(!is_stateless_reset(&d, None));
    d[20] = 8;
    assert!(!is_stateless_reset(&d, Some(token)));
}

#[test]
fn unprotect_short_packet() {
    let mut data = vec![0x40];
    data.extend_from_slice(&[1; 8]);
    data.extend_from_slice(&[3; 30]);
    let (pd, _) = PartialDecode::new(
        data,
        &FixedLengthConnectionIdParser::new(8),
        &default_supported_versions(),
        false,
    )
    .unwrap();
    let token = ResetToken::from_bytes([3; 16]);
    // no 1-RTT keys: dropped
    assert_eq!(unprotect_header(&pd, false, [true, true, false], Some(token), true), None);
    assert_eq!(
        unprotect_header(&pd, false, [false, false, true], Some(token), true),
        Some(UnprotectOutcome::Packet { stateless_reset: true })
    );
    assert_eq!(
        unprotect_header(&pd, false, [false, false, true], Some(token), false),
        Some(UnprotectOutcome::ResetOnly)
    );
    assert_eq!(unprotect_header(&pd, false, [false, false, true], None, false), None);
}

#[test]
fn datagram_size_limits() {
    assert_eq!(max_datagram_size(1200, 30, None), None);
    assert_eq!(max_datagram_size(1200, 30, Some(VarInt::from_u32(65535))), Some(1161));
    assert_eq!(max_datagram_size(1200, 30, Some(VarInt::from_u32(100))), Some(91));
    assert_eq!(max_datagram_size(1200, 30, Some(VarInt::from_u32(5))), Some(0));
}

#[test]
fn server_parameters_for_accepted_connection() {
    let config = TransportConfig::default();
    let loc = ConnectionId::new(&[1; 8]);
    let orig = ConnectionId::new(&[2; 8]);
    let p = accepted_params(&config, 8, loc, &ConstKey, orig, None, None);
    assert_eq!(p.original_dst_cid, Some(orig));
    assert_eq!(p.initial_src_cid, Some(loc));
    assert!(p.retry_src_cid.is_none());
    assert!(p.preferred_address.is_none());
    let mut t = Vec::new();
    p.stateless_reset_token.unwrap().encode(&mut t);
    assert_eq!(t, vec![0x5a; 16]);

    let pref = PreferredAddressConfig {
        address_v4: Some(SocketAddrV4 { ip: [10, 0, 0, 1], port: 443 }),
        address_v6: None,
        connection_id: ConnectionId::new(&[4; 8]),
    };
    let retry = ConnectionId::new(&[3; 8]);
    let p = accepted_params(&config, 8, loc, &ConstKey, orig, Some(retry), Some(pref));
    assert_eq!(p.retry_src_cid, Some(retry));
    let pa = p.preferred_address.unwrap();
    assert_eq!(pa.connection_id, ConnectionId::new(&[4; 8]));
    assert_eq!(pa.address_v4.unwrap().port, 443);
    // a preferred address config without any address announces none
    let empty = PreferredAddressConfig { address_v4: None, address_v6: None, ..pref };
    assert!(accepted_params(&config, 8, loc, &ConstKey, orig, None, Some(empty))
        .preferred_address
        .is_none());
}
