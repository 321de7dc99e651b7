use quic_core::varint::{decode_varint, encode_varint, MAX_VARINT, VarInt, VarIntBoundsExceeded};

fn roundtrip(value: u64) -> (Vec<u8>, u64) {
    let v = VarInt::new(value).unwrap();
    let mut buf = Vec::new();
    encode_varint(&v, &mut buf);
    let (decoded, consumed) = decode_varint(&buf, 0).unwrap();
    assert_eq!(consumed, buf.len());
    (buf, decoded.into_u64())
}

#[test]
fn varint_roundtrip_boundaries() {
    for value in [
        0u64,
        1,
        63,
        64,
        16383,
        16384,
        0x3fff_ffff,
        0x4000_0000,
        MAX_VARINT,
    ] {
        let (_, decoded) = roundtrip(value);
        assert_eq!(decoded, value);
    }
}

#[test]
fn varint_shortest_form_lengths() {
    assert_eq!(roundtrip(0).0.len(), 1);
    assert_eq!(roundtrip(63).0.len(), 1);
    assert_eq!(roundtrip(64).0.len(), 2);
    assert_eq!(roundtrip(16383).0.len(), 2);
    assert_eq!(roundtrip(16384).0.len(), 4);
    assert_eq!(roundtrip(0x3fff_ffff).0.len(), 4);
    assert_eq!(roundtrip(0x4000_0000).0.len(), 8);
    assert_eq!(roundtrip(MAX_VARINT).0.len(), 8);
}

#[test]
fn varint_wire_examples() {
    // The worked examples of RFC 9000 appendix A.1.
    let (bytes, _) = roundtrip(37);
    assert_eq!(bytes, vec![0x25]);
    let (bytes, _) = roundtrip(15293);
    assert_eq!(bytes, vec![0x7b, 0xbd]);
    let (bytes, _) = roundtrip(494_878_333);
    assert_eq!(bytes, vec![0x9d, 0x7f, 0x3e, 0x7d]);
    let (bytes, _) = roundtrip(151_288_809_941_952_652);
    assert_eq!(bytes, vec![0xc2, 0x19, 0x7c, 0x5e, 0xff, 0x14, 0xe8, 0x8c]);
}

#[test]
fn varint_decode_accepts_any_form() {
    // 37 in the 2-byte form: tag 01, high bits zero.
    let (v, consumed) = decode_varint(&[0x40, 0x25], 0).unwrap();
    assert_eq!(v.into_u64(), 37);
    assert_eq!(consumed, 2);
}

#[test]
fn varint_decode_truncated_is_rejected() {
    assert!(decode_varint(&[], 0).is_none());
    assert!(decode_varint(&[0x40], 0).is_none());
    assert!(decode_varint(&[0x80, 0x00, 0x00], 0).is_none());
    assert!(decode_varint(&[0xc0, 0, 0, 0, 0, 0, 0], 0).is_none());
}

#[test]
fn varint_decode_leaves_trailing_data() {
    let mut buf = Vec::new();
    encode_varint(&VarInt::new(15293).unwrap(), &mut buf);
    buf.extend_from_slice(&[0xaa, 0xbb]);
    let (v, consumed) = decode_varint(&buf, 0).unwrap();
    assert_eq!(v.into_u64(), 15293);
    assert_eq!(consumed, 2);
}

#[test]
fn varint_bounds() {
    assert!(VarInt::new(MAX_VARINT).is_ok());
    assert_eq!(VarInt::new(MAX_VARINT + 1), Err(VarIntBoundsExceeded));
    assert_eq!(VarInt::max().into_u64(), MAX_VARINT);
    assert_eq!(VarInt::from_u32(u32::MAX).into_u64(), u32::MAX as u64);
}
