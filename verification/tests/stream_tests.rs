use quic_core::streams::{FinishError, SendState, SendStreamState, WriteError};
use quic_core::varint::VarInt;

fn code(v: u32) -> VarInt {
    VarInt::from_u32(v)
}

#[test]
fn write_respects_stream_and_connection_credit() {
    let mut s = SendStreamState::new(10);
    assert_eq!(s.write(&[1; 20], 100), Ok(10));
    assert_eq!(s.pending, vec![1; 10]);
    assert_eq!(s.write(&[2; 5], 100), Err(WriteError::Blocked));
    s.set_max_data(14);
    assert_eq!(s.write(&[2; 5], 2), Ok(2));
    assert_eq!(s.write(&[3; 5], 100), Ok(2));
    assert_eq!(s.pending, vec![1, 1, 1, 1, 1, 1, 1, 1, 1, 1, 2, 2, 3, 3]);
}

#[test]
fn write_after_finish_is_unknown_stream() {
    let mut s = SendStreamState::new(100);
    assert_eq!(s.write(b"hi", 100), Ok(2));
    assert!(s.finish().is_ok());
    assert_eq!(s.state, SendState::DataSent);
    assert_eq!(s.write(b"more", 100), Err(WriteError::UnknownStream));
    assert_eq!(s.finish(), Err(FinishError::UnknownStream));
}

#[test]
fn stop_sending_surfaces_peer_code() {
    let mut s = SendStreamState::new(100);
    s.on_stop_sending(code(17));
    assert_eq!(s.write(b"x", 100), Err(WriteError::Stopped(code(17))));
    assert_eq!(s.finish(), Err(FinishError::Stopped(code(17))));
    assert_eq!(s.stopped(), Ok(Some(code(17))));
}

#[test]
fn reset_discards_buffered_data() {
    let mut s = SendStreamState::new(100);
    assert_eq!(s.write(b"abcdef", 100), Ok(6));
    assert!(s.reset(code(3)).is_ok());
    assert_eq!(s.state, SendState::ResetSent);
    assert!(s.pending.is_empty());
    assert!(s.reset(code(3)).is_err());
    s.on_reset_acked();
    assert_eq!(s.state, SendState::ResetRecvd);
    assert!(s.stopped().is_err());
    assert!(s.priority().is_err());
}

#[test]
fn priority_defaults_to_zero() {
    let mut s = SendStreamState::new(100);
    assert_eq!(s.priority(), Ok(0));
    assert!(s.set_priority(7).is_ok());
    assert_eq!(s.priority(), Ok(7));
}

#[test]
fn unacked_bytes_match_offsets() {
    // The buffered, unacknowledged bytes are exactly
    // write_offset - acked_up_to, and never shrink except through
    // acknowledgement or reset.
    let mut s = SendStreamState::new(1000);
    assert_eq!(s.write(&[5; 100], 1000), Ok(100));
    assert_eq!(s.pending.len(), 100);
    assert_eq!(s.acked, 0);
    s.next_chunk(40).unwrap();
    assert_eq!(s.pending.len(), 100);
    s.on_ack(40);
    assert_eq!(s.acked, 40);
    assert_eq!(s.pending.len(), 60);
    assert_eq!(s.write(&[6; 10], 1000), Ok(10));
    assert_eq!(s.pending.len(), 70);
}

#[test]
fn finish_completes_once_everything_is_acked() {
    let mut s = SendStreamState::new(100);
    assert_eq!(s.write(b"data", 100), Ok(4));
    assert!(s.finish().is_ok());
    let t = s.next_chunk(100).unwrap();
    assert_eq!(t.offset, 0);
    assert_eq!(t.data, b"data".to_vec());
    assert!(t.fin);
    s.on_ack(4);
    assert_eq!(s.state, SendState::DataRecvd);
}

#[test]
fn retransmission_repeats_original_bytes() {
    // A chunk cut after a loss rewind carries the bytes originally
    // written at those offsets.
    let mut s = SendStreamState::new(100);
    assert_eq!(s.write(b"hello world", 100), Ok(11));
    let first = s.next_chunk(5).unwrap();
    assert_eq!(first.offset, 0);
    assert_eq!(first.data, b"hello".to_vec());
    let second = s.next_chunk(6).unwrap();
    assert_eq!(second.offset, 5);
    assert_eq!(second.data, b" world".to_vec());
    // the first packet is declared lost: everything from offset 0 repeats
    s.on_loss(0);
    let again = s.next_chunk(5).unwrap();
    assert_eq!(again.offset, 0);
    assert_eq!(again.data, b"hello".to_vec());
}

#[test]
fn fin_is_retransmitted_after_loss() {
    let mut s = SendStreamState::new(100);
    assert_eq!(s.write(b"ab", 100), Ok(2));
    assert!(s.finish().is_ok());
    let t = s.next_chunk(100).unwrap();
    assert!(t.fin);
    assert!(s.next_chunk(100).is_none());
    s.on_loss(2);
    let again = s.next_chunk(100).unwrap();
    assert!(again.fin);
    assert_eq!(again.data.len(), 0);
}
