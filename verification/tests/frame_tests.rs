use quic_core::frame::{decode_frame, encode_frame, AckRange, Frame};
use quic_core::stream_id::Dir;

fn roundtrip(f: Frame) -> Vec<u8> {
    let mut buf = Vec::new();
    encode_frame(&f, &mut buf);
    // anything may follow a frame in a packet
    let mut wire = buf.clone();
    wire.extend_from_slice(&[0xde, 0xad]);
    let (decoded, consumed) = decode_frame(&wire, 0).unwrap();
    assert_eq!(decoded, f);
    assert_eq!(consumed, buf.len());
    buf
}

#[test]
fn every_frame_kind_roundtrips() {
    roundtrip(Frame::Padding);
    roundtrip(Frame::Ping);
    roundtrip(Frame::ResetStream { stream: 7, error_code: 99, final_size: 1 << 40 });
    roundtrip(Frame::StopSending { stream: 3, error_code: 0 });
    roundtrip(Frame::Crypto { offset: 1200, data: vec![1, 2, 3, 4] });
    roundtrip(Frame::NewToken { token: vec![9; 33] });
    roundtrip(Frame::Stream { stream: 2, offset: 0, fin: false, data: b"hello".to_vec() });
    roundtrip(Frame::Stream { stream: 2, offset: 5, fin: true, data: b" world".to_vec() });
    roundtrip(Frame::MaxData { max: 1_250_000 });
    roundtrip(Frame::MaxStreamData { stream: 6, max: 16_384 });
    roundtrip(Frame::MaxStreams { dir: Dir::Bi, max: 100 });
    roundtrip(Frame::MaxStreams { dir: Dir::Uni, max: 100 });
    roundtrip(Frame::DataBlocked { limit: 4096 });
    roundtrip(Frame::StreamDataBlocked { stream: 6, limit: 4096 });
    roundtrip(Frame::StreamsBlocked { dir: Dir::Bi, limit: 100 });
    roundtrip(Frame::StreamsBlocked { dir: Dir::Uni, limit: 101 });
    roundtrip(Frame::RetireConnectionId { sequence: 12 });
    roundtrip(Frame::PathChallenge { token: vec![1, 2, 3, 4, 5, 6, 7, 8] });
    roundtrip(Frame::PathResponse { token: vec![8, 7, 6, 5, 4, 3, 2, 1] });
    roundtrip(Frame::ConnectionClose {
        error_code: 0x0a,
        frame_type: Some(0x08),
        reason: b"bad frame".to_vec(),
    });
    roundtrip(Frame::ConnectionClose {
        error_code: 17,
        frame_type: None,
        reason: b"done".to_vec(),
    });
    roundtrip(Frame::HandshakeDone);
    roundtrip(Frame::Datagram { data: vec![0x55; 100] });
}

#[test]
fn ack_and_new_connection_id_roundtrip() {
    roundtrip(Frame::Ack { largest: 1000, delay: 25, first_range: 3, ranges: vec![] });
    roundtrip(Frame::Ack {
        largest: 1 << 50,
        delay: 0,
        first_range: 0,
        ranges: vec![
            AckRange { gap: 1, length: 5 },
            AckRange { gap: 1000, length: 1 << 30 },
            AckRange { gap: 0, length: 0 },
        ],
    });
    roundtrip(Frame::NewConnectionId {
        sequence: 4,
        retire_prior_to: 2,
        cid: vec![0xab; 8],
        reset_token: (0..16).collect(),
    });
    roundtrip(Frame::NewConnectionId {
        sequence: 0,
        retire_prior_to: 0,
        cid: vec![],
        reset_token: vec![9; 16],
    });
}

#[test]
fn truncated_ack_is_rejected() {
    // range count of 2 but only one range follows
    assert!(decode_frame(&[0x02, 0x0a, 0x00, 0x02, 0x00, 0x01, 0x01], 0).is_none());
}

#[test]
fn frame_wire_bytes_are_canonical() {
    let bytes = roundtrip(Frame::MaxData { max: 37 });
    assert_eq!(bytes, vec![0x10, 0x25]);
    let bytes = roundtrip(Frame::Stream { stream: 1, offset: 2, fin: true, data: vec![0xaa] });
    assert_eq!(bytes, vec![0x0f, 0x01, 0x02, 0x01, 0xaa]);
    let bytes = roundtrip(Frame::Ping);
    assert_eq!(bytes, vec![0x01]);
}

#[test]
fn truncated_frames_are_rejected() {
    assert!(decode_frame(&[], 0).is_none());
    // RESET_STREAM missing its final size
    assert!(decode_frame(&[0x04, 0x07, 0x63], 0).is_none());
    // CRYPTO whose length runs past the input
    assert!(decode_frame(&[0x06, 0x00, 0x04, 0xaa], 0).is_none());
    // PATH_CHALLENGE with a short token
    assert!(decode_frame(&[0x1a, 1, 2, 3], 0).is_none());
}

#[test]
fn reserved_frame_types_are_rejected() {
    assert!(decode_frame(&[0x21], 0).is_none());
    assert!(decode_frame(&[0x40, 0xff], 0).is_none());
    // a NEW_CONNECTION_ID naming a 21-byte connection ID oversteps the bound
    let mut bad = vec![0x18, 0x01, 0x00, 21];
    bad.extend_from_slice(&[0; 21 + 16]);
    assert!(decode_frame(&bad, 0).is_none());
}

#[test]
fn stream_frames_decode_in_any_form() {
    // type 0x08: no offset, no length, no fin: the data runs to the end
    let (f, consumed) = decode_frame(&[0x08, 0x04, 0xaa, 0xbb], 0).unwrap();
    assert_eq!(
        f,
        Frame::Stream { stream: 4, offset: 0, fin: false, data: vec![0xaa, 0xbb] }
    );
    assert_eq!(consumed, 4);
    // type 0x0d: offset, no length, fin
    let (f, _) = decode_frame(&[0x0d, 0x04, 0x10, 0xcc], 0).unwrap();
    assert_eq!(f, Frame::Stream { stream: 4, offset: 16, fin: true, data: vec![0xcc] });
    // DATAGRAM without a length runs to the end
    let (f, _) = decode_frame(&[0x30, 1, 2, 3], 0).unwrap();
    assert_eq!(f, Frame::Datagram { data: vec![1, 2, 3] });
}
