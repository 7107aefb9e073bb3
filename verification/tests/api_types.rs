use quinn_proto::config::{ClientConfig, ServerConfig};
use quinn_proto::congestion::{
    minimum_window, sent_before_recovery, ssthresh_after_loss, window_after_mtu_update,
    CubicConfig,
};
use quinn_proto::crypto::{
    interpret_version, AeadKey, CryptoError, HandshakeTokenKey, NoInitialCipherSuite, TlsVersion,
    UnsupportedVersion,
};
use quinn_proto::shared::{ConnectionId, SocketAddr};
use quinn_proto::token::{encode_addr, RetryToken};
use quinn_proto::transport_parameters::{SocketAddrV4, SocketAddrV6};
use quinn_proto::stream_api::{EndpointStats, ReadError, ReadToEndError};
use quinn_proto::streams::ReadableError;
use quinn_proto::udp_state::{gro_segments_for, UdpSocketState};

#[test]
fn cubic_default_window() {
    assert_eq!(CubicConfig::default().initial_window, 12000);
}

#[test]
fn cubic_window_rules() {
    assert_eq!(minimum_window(1200), 2400);
    assert_eq!(window_after_mtu_update(1000, 1500), 3000);
    assert_eq!(window_after_mtu_update(50000, 1500), 50000);
    assert!(sent_before_recovery(Some(10), 10));
    assert!(!sent_before_recovery(Some(10), 11));
    assert!(!sent_before_recovery(None, 0));
    assert_eq!(ssthresh_after_loss(100, 1200), 2400);
    assert_eq!(ssthresh_after_loss(8400, 1200), 8400);
}

#[test]
fn tls_versions() {
    assert_eq!(interpret_version(1), Ok(TlsVersion::V1));
    assert_eq!(interpret_version(0xff00_001d), Ok(TlsVersion::V1Draft));
    assert_eq!(interpret_version(0xff00_0020), Ok(TlsVersion::V1Draft));
    assert_eq!(interpret_version(0xff00_0022), Ok(TlsVersion::V1));
    assert_eq!(interpret_version(0xff00_0023), Err(UnsupportedVersion));
    assert_eq!(interpret_version(2), Err(UnsupportedVersion));
    let e = NoInitialCipherSuite { specific: true };
    assert!(e.specific);
}

#[test]
fn read_errors_convert() {
    assert_eq!(ReadError::from(ReadableError::ClosedStream), ReadError::ClosedStream);
    assert_eq!(
        ReadError::from(ReadableError::IllegalOrderedRead),
        ReadError::IllegalOrderedRead
    );
    assert_eq!(
        ReadToEndError::from(ReadError::ClosedStream),
        ReadToEndError::Read(ReadError::ClosedStream)
    );
    let s = EndpointStats::default();
    assert_eq!(s.outgoing_handshakes + s.accepted_handshakes, 0);
}

#[test]
fn udp_socket_state_from_options() {
    // IPv4: only the IPv4 option matters
    let s = UdpSocketState::from_options(true, true, false, false, 64);
    assert!(!s.may_fragment());
    assert_eq!(s.gro_segments(), 64);
    // IPv6 without IPV6_DONTFRAG may fragment
    let mut s = UdpSocketState::from_options(false, true, true, false, 1);
    assert!(s.may_fragment());
    assert!(s.sends_tos(true));
    assert!(!s.sends_tos(false));
    s.set_sendmsg_einval();
    assert!(s.sendmsg_einval());
    assert!(!s.sends_tos(true));
    assert_eq!(gro_segments_for(true), 64);
    assert_eq!(gro_segments_for(false), 1);
}

/// An AEAD key that "seals" by appending the length of the key material it was derived from
struct TagKey(u8);

impl AeadKey for TagKey {
    fn seal(&self, data: &mut Vec<u8>, _additional_data: &[u8]) -> Result<(), CryptoError> {
        data.push(self.0);
        Ok(())
    }

    fn open<'a>(&self, data: &'a mut [u8], _additional_data: &[u8]) -> Result<&'a mut [u8], CryptoError> {
        Ok(data)
    }
}

struct TokenKey;

impl HandshakeTokenKey for TokenKey {
    type Aead = TagKey;

    fn aead_from_hkdf(&self, random_bytes: &[u8]) -> TagKey {
        TagKey(random_bytes.len() as u8)
    }
}

#[test]
fn retry_token_bytes() {
    let addr = SocketAddr::V4(SocketAddrV4 { ip: [192, 0, 2, 1], port: 0x1234 });
    let mut buf = Vec::new();
    encode_addr(&mut buf, &addr);
    assert_eq!(buf, vec![0, 192, 0, 2, 1, 0x12, 0x34]);
    let t = RetryToken { orig_dst_cid: ConnectionId::new(&[9, 8]), issued: 5 };
    let plain = t.plaintext(&addr);
    assert_eq!(plain, vec![0, 192, 0, 2, 1, 0x12, 0x34, 2, 9, 8, 0, 0, 0, 0, 0, 0, 0, 5]);
    let sealed = t.encode(&TokenKey, &addr, &ConnectionId::new(&[1, 2, 3])).unwrap();
    assert_eq!(sealed.len(), plain.len() + 1);
    assert_eq!(sealed[plain.len()], 3);
    let v6 = SocketAddr::V6(SocketAddrV6 { ip: [0; 16], port: 1 });
    let mut buf = Vec::new();
    encode_addr(&mut buf, &v6);
    assert_eq!(buf.len(), 19);
    assert_eq!(buf[0], 1);
}

#[test]
fn server_config_defaults_and_limits() {
    let mut config = ServerConfig::new(TokenKey);
    assert!(config.migration);
    assert_eq!(config.retry_token_lifetime, 15_000_000_000);
    assert!(config.preferred_address_v4.is_none());
    let limits = config.limits();
    assert_eq!(limits.incoming_buffer_size, 10 << 20);
    assert_eq!(limits.incoming_buffer_size_total, 100 << 20);
    assert_eq!(limits.max_incoming, 1 << 16);
    config.incoming_buffer_size(4096).incoming_buffer_size_total(8192);
    let limits = config.limits();
    assert_eq!(limits.incoming_buffer_size, 4096);
    assert_eq!(limits.incoming_buffer_size_total, 8192);
    assert_eq!(config.transport.initial_rtt, 333_000_000);
}

#[test]
fn client_config_version_and_initial_cid() {
    let mut config = ClientConfig::new();
    assert_eq!(config.version, 1);
    config.version(0xff00_001d);
    assert_eq!(config.version, 0xff00_001d);
    assert_eq!(config.transport.initial_mtu, 1200);
    let a = config.initial_dst_cid();
    let b = config.initial_dst_cid();
    assert_eq!(a.len(), 20);
    assert_eq!(b.len(), 20);
}
