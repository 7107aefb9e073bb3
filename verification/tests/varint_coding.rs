use quinn_proto::varint::VarInt;

fn roundtrip(x: u64, expected: &[u8]) {
    let v = VarInt::from_u64(x).unwrap();
    let mut buf = Vec::new();
    v.encode(&mut buf);
    assert_eq!(&buf[..], expected);
    assert_eq!(v.size(), expected.len());
    let (d, n) = VarInt::decode(&buf).unwrap();
    assert_eq!(d.into_inner(), x);
    assert_eq!(n, expected.len());
}

#[test]
fn varint_encodings_of_rfc_examples() {
    roundtrip(37, &[0x25]);
    roundtrip(15293, &[0x7b, 0xbd]);
    roundtrip(494878333, &[0x9d, 0x7f, 0x3e, 0x7d]);
    roundtrip(151288809941952652, &[0xc2, 0x19, 0x7c, 0x5e, 0xff, 0x14, 0xe8, 0x8c]);
}

#[test]
fn varint_size_boundaries() {
    roundtrip(63, &[0x3f]);
    roundtrip(64, &[0x40, 0x40]);
    roundtrip(16383, &[0x7f, 0xff]);
    roundtrip(16384, &[0x80, 0x00, 0x40, 0x00]);
    roundtrip((1 << 62) - 1, &[0xff; 8]);
}

#[test]
fn varint_bounds_exceeded() {
    assert!(VarInt::from_u64(1 << 62).is_err());
    assert_eq!(VarInt::max_value().into_inner(), (1 << 62) - 1);
    assert_eq!(VarInt::from_u32(7).into_inner(), 7);
    assert!(VarInt::try_from_usize(5).is_ok());
}

#[test]
fn varint_decode_truncated() {
    assert!(VarInt::decode(&[]).is_err());
    assert!(VarInt::decode(&[0x40]).is_err());
    assert!(VarInt::decode(&[0x80, 0, 0]).is_err());
    assert!(VarInt::decode(&[0xc0, 0, 0, 0, 0, 0, 0]).is_err());
}
