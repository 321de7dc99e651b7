use quic_core::flow::{FlowControl, FlowControlError};
use quic_core::recv::{ReadOutcome, RecvFrameError, RecvStreamState};
use quic_core::varint::VarInt;

fn read_all(s: &mut RecvStreamState) -> Vec<u8> {
    let mut out = Vec::new();
    loop {
        match s.read(1024) {
            ReadOutcome::Data(v) => out.extend_from_slice(&v),
            _ => return out,
        }
    }
}

#[test]
fn reordered_frames_reassemble_identically() {
    // the same frames, three arrival orders, one byte stream
    let frames: Vec<(usize, &[u8])> = vec![(0, b"hello"), (5, b" wor"), (9, b"ld")];
    let orders: Vec<Vec<usize>> = vec![vec![0, 1, 2], vec![2, 0, 1], vec![1, 2, 0]];
    for order in orders {
        let mut s = RecvStreamState::new(1024);
        for &ix in &order {
            let (off, data) = frames[ix];
            assert!(s.on_stream_frame(off, data, off + data.len() == 11).is_ok());
        }
        assert_eq!(read_all(&mut s), b"hello world".to_vec());
        assert_eq!(s.read(10), ReadOutcome::Finished);
    }
}

#[test]
fn duplicate_and_overlapping_frames_are_harmless() {
    let mut s = RecvStreamState::new(1024);
    assert!(s.on_stream_frame(0, b"abcd", false).is_ok());
    assert!(s.on_stream_frame(2, b"cdef", false).is_ok());
    assert!(s.on_stream_frame(0, b"abcd", false).is_ok());
    assert!(s.on_stream_frame(6, b"", true).is_ok());
    assert_eq!(read_all(&mut s), b"abcdef".to_vec());
}

#[test]
fn gaps_block_in_order_delivery() {
    let mut s = RecvStreamState::new(1024);
    assert!(s.on_stream_frame(5, b"world", false).is_ok());
    assert_eq!(s.read(64), ReadOutcome::Blocked);
    assert!(s.on_stream_frame(0, b"hello", false).is_ok());
    assert_eq!(s.read(64), ReadOutcome::Data(b"helloworld".to_vec()));
    assert_eq!(s.read(64), ReadOutcome::Blocked);
}

#[test]
fn frames_beyond_advertised_credit_are_a_flow_control_error() {
    let mut s = RecvStreamState::new(10);
    assert!(s.on_stream_frame(0, b"0123456789", false).is_ok());
    assert_eq!(
        s.on_stream_frame(10, b"x", false),
        Err(RecvFrameError::FlowControl)
    );
}

#[test]
fn final_size_contradictions_are_rejected() {
    let mut s = RecvStreamState::new(1024);
    assert!(s.on_stream_frame(0, b"abc", true).is_ok());
    assert_eq!(s.on_stream_frame(0, b"abcd", false), Err(RecvFrameError::FinalSize));
    assert_eq!(s.on_stream_frame(0, b"ab", true), Err(RecvFrameError::FinalSize));
    let mut t = RecvStreamState::new(1024);
    assert!(t.on_stream_frame(0, b"abcdef", false).is_ok());
    assert_eq!(t.on_stream_frame(0, b"abc", true), Err(RecvFrameError::FinalSize));
}

#[test]
fn reset_surfaces_peer_code_to_reader() {
    let mut s = RecvStreamState::new(1024);
    assert!(s.on_stream_frame(0, b"partial", false).is_ok());
    assert!(s.on_reset(VarInt::from_u32(77), 20).is_ok());
    assert_eq!(s.read(64), ReadOutcome::Reset(VarInt::from_u32(77)));
    // frames after a reset are discarded silently
    assert!(s.on_stream_frame(7, b"late", false).is_ok());
}

#[test]
fn reset_below_received_data_is_rejected() {
    let mut s = RecvStreamState::new(1024);
    assert!(s.on_stream_frame(0, b"0123456789", false).is_ok());
    assert_eq!(s.on_reset(VarInt::from_u32(1), 5), Err(RecvFrameError::FinalSize));
}

#[test]
fn advertised_credit_never_regresses() {
    let mut f = FlowControl::new(16_384);
    assert_eq!(f.advertised, 16_384);
    assert!(f.on_receive(16_384).is_ok());
    assert_eq!(f.on_receive(1), Err(FlowControlError));
    f.on_consume(8_000);
    // half a window has not been consumed yet: no advertisement
    assert_eq!(f.maybe_advertise(), None);
    assert_eq!(f.advertised, 16_384);
    f.on_consume(192);
    // exactly half a window consumed: credit grows to consumed + window
    assert_eq!(f.maybe_advertise(), Some(8_192 + 16_384));
    assert_eq!(f.advertised, 24_576);
    // with fresh credit the peer may send again
    assert!(f.on_receive(8_192).is_ok());
}
