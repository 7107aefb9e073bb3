use quinn_proto::packet::PacketNumber;

fn check_pn(typed: PacketNumber, encoded: &[u8]) {
    let mut buf = Vec::new();
    typed.encode(&mut buf);
    assert_eq!(&buf[..], encoded);
    let decoded = PacketNumber::decode(typed.len(), &buf).unwrap();
    assert_eq!(typed, decoded);
}

#[test]
fn roundtrip_packet_numbers() {
    check_pn(PacketNumber::U8(0x7f), &[0x7f]);
    check_pn(PacketNumber::U16(0x80), &[0x00, 0x80]);
    check_pn(PacketNumber::U16(0x3fff), &[0x3f, 0xff]);
    check_pn(PacketNumber::U32(0x0000_4000), &[0x00, 0x00, 0x40, 0x00]);
    check_pn(PacketNumber::U32(0xffff_ffff), &[0xff, 0xff, 0xff, 0xff]);
}

#[test]
fn pn_encode() {
    check_pn(PacketNumber::new(0x10, 0), &[0x10]);
    check_pn(PacketNumber::new(0x100, 0), &[0x01, 0x00]);
    check_pn(PacketNumber::new(0x10000, 0), &[0x01, 0x00, 0x00]);
}

#[test]
fn pn_expand_roundtrip() {
    for expected in 0..1024 {
        for actual in expected..1024 {
            assert_eq!(actual, PacketNumber::new(actual, expected).expand(expected));
        }
    }
}

#[test]
fn header_encoding() {}

#[test]
fn pn_decode_too_short() {
    assert!(PacketNumber::decode(2, &[0x01]).is_err());
}

#[test]
fn pn_expand_wraps_forward() {
    // truncated 0x01 in a one-byte window just after 0xff is 0x101
    assert_eq!(PacketNumber::U8(0x01).expand(0xff), 0x101);
    assert_eq!(PacketNumber::U16(0x9b32).expand(0xa82f30eb), 0xa82f9b32);
}
