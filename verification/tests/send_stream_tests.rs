use quic_core::send_stream::{
    ConnState, ConnectionError, PollStep, SendStream, StoppedError, WriteError,
};
use quic_core::stream_id::{Dir, Side, StreamId};
use quic_core::streams::{SendState, SendStreamState};
use quic_core::varint::VarInt;

fn setup(budget: u64, max_stream_data: u64) -> (SendStream, ConnState, SendStreamState) {
    let id = StreamId::new(Side::Client, Dir::Uni, 0);
    (
        SendStream::new(id, false),
        ConnState::new(budget),
        SendStreamState::new(max_stream_data),
    )
}

#[test]
fn poll_write_moves_data_and_budget() {
    let (h, mut conn, mut stream) = setup(100, 100);
    let r = h.poll_write(&mut conn, &mut stream, b"hello");
    assert_eq!(r, PollStep::Ready(Ok(5)));
    assert_eq!(conn.send_budget, 95);
    assert!(conn.needs_wake);
    assert_eq!(stream.pending, b"hello".to_vec());
}

#[test]
fn poll_write_parks_writer_without_credit() {
    let (h, mut conn, mut stream) = setup(0, 100);
    let r = h.poll_write(&mut conn, &mut stream, b"hello");
    assert_eq!(r, PollStep::Pending);
    assert_eq!(conn.blocked_writers, vec![h.id().value()]);
    assert!(stream.pending.is_empty());
}

#[test]
fn poll_write_reports_connection_error() {
    let (h, mut conn, mut stream) = setup(100, 100);
    conn.error = Some(ConnectionError::TimedOut);
    let r = h.poll_write(&mut conn, &mut stream, b"hello");
    assert_eq!(
        r,
        PollStep::Ready(Err(WriteError::ConnectionClosed(ConnectionError::TimedOut)))
    );
    // no stream data is accepted after a fatal error
    assert!(stream.pending.is_empty());
    assert_eq!(conn.send_budget, 100);
}

#[test]
fn zero_rtt_rejection_fails_writes() {
    let id = StreamId::new(Side::Client, Dir::Uni, 3);
    let h = SendStream::new(id, true);
    let mut conn = ConnState::new(100);
    conn.zero_rtt_rejected = true;
    let mut stream = SendStreamState::new(100);
    assert_eq!(
        h.poll_write(&mut conn, &mut stream, b"x"),
        PollStep::Ready(Err(WriteError::ZeroRttRejected))
    );
    assert_eq!(
        h.poll_stopped(&mut conn, &stream),
        PollStep::Ready(Err(StoppedError::ZeroRttRejected))
    );
    // reset of a rejected 0-RTT stream is a successful no-op
    assert_eq!(h.reset(&mut conn, &mut stream, VarInt::from_u32(1)), Ok(()));
    assert_eq!(stream.state, SendState::Ready);
}

#[test]
fn poll_finish_waits_for_full_acknowledgement() {
    let (mut h, mut conn, mut stream) = setup(100, 100);
    assert_eq!(h.poll_write(&mut conn, &mut stream, b"bye"), PollStep::Ready(Ok(3)));
    assert_eq!(h.poll_finish(&mut conn, &mut stream), PollStep::Pending);
    assert_eq!(conn.finishing, vec![h.id().value()]);
    assert_eq!(stream.state, SendState::DataSent);
    // still pending until the peer acknowledges up to the FIN
    assert_eq!(h.poll_finish(&mut conn, &mut stream), PollStep::Pending);
    stream.next_chunk(100).unwrap();
    stream.on_ack(3);
    assert_eq!(h.poll_finish(&mut conn, &mut stream), PollStep::Ready(Ok(())));
}

#[test]
fn poll_finish_reports_stop() {
    let (mut h, mut conn, mut stream) = setup(100, 100);
    stream.on_stop_sending(VarInt::from_u32(9));
    assert_eq!(
        h.poll_finish(&mut conn, &mut stream),
        PollStep::Ready(Err(WriteError::Stopped(VarInt::from_u32(9))))
    );
}

#[test]
fn poll_stopped_parks_then_yields_code() {
    let (h, mut conn, mut stream) = setup(100, 100);
    assert_eq!(h.poll_stopped(&mut conn, &stream), PollStep::Pending);
    assert_eq!(conn.stopped, vec![h.id().value()]);
    stream.on_stop_sending(VarInt::from_u32(33));
    assert_eq!(
        h.poll_stopped(&mut conn, &stream),
        PollStep::Ready(Ok(VarInt::from_u32(33)))
    );
}

#[test]
fn drop_finishes_implicitly() {
    let (h, mut conn, mut stream) = setup(100, 100);
    assert_eq!(h.poll_write(&mut conn, &mut stream, b"tail"), PollStep::Ready(Ok(4)));
    h.on_drop(&mut conn, &mut stream);
    assert_eq!(stream.state, SendState::DataSent);
}

#[test]
fn drop_of_stopped_stream_resets_with_peer_code() {
    let (h, mut conn, mut stream) = setup(100, 100);
    stream.on_stop_sending(VarInt::from_u32(2));
    h.on_drop(&mut conn, &mut stream);
    assert_eq!(stream.state, SendState::ResetSent);
}

#[test]
fn write_all_makes_partial_progress_then_parks() {
    let (h, mut conn, mut stream) = setup(4, 100);
    let mut from = 0usize;
    let r = h.poll_write_all(&mut conn, &mut stream, b"abcdef", &mut from);
    assert_eq!(r, PollStep::Pending);
    assert_eq!(from, 4);
    assert_eq!(stream.pending, b"abcd".to_vec());
    assert_eq!(conn.blocked_writers, vec![h.id().value()]);
    // more credit arrives: the rest goes out
    conn.send_budget = 100;
    let r = h.poll_write_all(&mut conn, &mut stream, b"abcdef", &mut from);
    assert_eq!(r, PollStep::Ready(Ok(())));
    assert_eq!(from, 6);
    assert_eq!(stream.pending, b"abcdef".to_vec());
}

#[test]
fn write_chunks_counts_bytes_and_whole_chunks() {
    let (h, mut conn, mut stream) = setup(5, 100);
    let mut bufs = vec![b"ab".to_vec(), b"cde".to_vec(), b"fgh".to_vec()];
    let r = h.poll_write_chunks(&mut conn, &mut stream, &mut bufs, 0);
    match r {
        PollStep::Ready(Ok(written)) => {
            assert_eq!(written.bytes, 5);
            assert_eq!(written.chunks, 2);
        }
        other => panic!("unexpected outcome: {:?}", other),
    }
    assert!(bufs[0].is_empty());
    assert!(bufs[1].is_empty());
    assert_eq!(bufs[2], b"fgh".to_vec());
    assert_eq!(stream.pending, b"abcde".to_vec());
}

#[test]
fn write_chunks_trims_a_partial_chunk() {
    let (h, mut conn, mut stream) = setup(3, 100);
    let mut bufs = vec![b"abcde".to_vec()];
    let r = h.poll_write_chunks(&mut conn, &mut stream, &mut bufs, 0);
    match r {
        PollStep::Ready(Ok(written)) => {
            assert_eq!(written.bytes, 3);
            assert_eq!(written.chunks, 0);
        }
        other => panic!("unexpected outcome: {:?}", other),
    }
    assert_eq!(bufs[0], b"de".to_vec());
}

#[test]
fn write_chunk_drains_one_chunk() {
    let (h, mut conn, mut stream) = setup(2, 100);
    let mut buf = b"wxyz".to_vec();
    assert_eq!(h.poll_write_chunk(&mut conn, &mut stream, &mut buf), PollStep::Pending);
    assert_eq!(buf, b"yz".to_vec());
    conn.send_budget = 10;
    assert_eq!(
        h.poll_write_chunk(&mut conn, &mut stream, &mut buf),
        PollStep::Ready(Ok(()))
    );
    assert!(buf.is_empty());
    assert_eq!(stream.pending, b"wxyz".to_vec());
}

#[test]
fn write_all_chunks_advances_the_cursor() {
    let (h, mut conn, mut stream) = setup(100, 100);
    let mut bufs = vec![b"one".to_vec(), b"two".to_vec()];
    let mut from = 0usize;
    let r = h.poll_write_all_chunks(&mut conn, &mut stream, &mut bufs, &mut from);
    assert_eq!(r, PollStep::Ready(Ok(())));
    assert_eq!(from, 2);
    assert_eq!(stream.pending, b"onetwo".to_vec());
}
