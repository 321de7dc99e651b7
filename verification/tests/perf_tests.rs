use quic_core::perf::{
    encode_request_header, poll_drain, poll_respond, read_request_header, response_chunk,
    RESPONSE_BYTE,
};
use quic_core::recv::{ReadOutcome, RecvStreamState};
use quic_core::send_stream::{ConnState, PollStep, SendStream};
use quic_core::stream_id::{Dir, Side, StreamId};
use quic_core::streams::SendStreamState;

#[test]
fn request_header_carries_big_endian_length() {
    assert_eq!(
        read_request_header(&[0, 0, 0, 0, 0, 0, 4, 0]),
        Some(1024)
    );
    assert_eq!(read_request_header(&[0; 7]), None);
    assert_eq!(
        read_request_header(&[0xff; 8]),
        Some(u64::MAX)
    );
    // padding after the header is ignored
    assert_eq!(
        read_request_header(&[0, 0, 0, 0, 0, 0, 0, 5, 9, 9, 9]),
        Some(5)
    );
}

#[test]
fn request_header_roundtrips() {
    for n in [0u64, 1, 255, 1024, 65_536, u64::MAX] {
        let bytes = encode_request_header(n);
        assert_eq!(bytes.len(), 8);
        assert_eq!(read_request_header(&bytes), Some(n));
    }
    assert_eq!(encode_request_header(1024), vec![0, 0, 0, 0, 0, 0, 4, 0]);
}

#[test]
fn response_chunks_are_all_fill_bytes() {
    let c = response_chunk(10);
    assert_eq!(c, vec![0x2A; 10]);
    assert!(response_chunk(0).is_empty());
}

#[test]
fn respond_fills_exactly_the_requested_bytes() {
    let id = StreamId::new(Side::Server, Dir::Uni, 0);
    let handle = SendStream::new(id, false);
    let mut conn = ConnState::new(1 << 20);
    let mut stream = SendStreamState::new(1 << 20);
    let mut remaining = 1024u64;
    let r = poll_respond(&handle, &mut conn, &mut stream, &mut remaining);
    assert_eq!(r, PollStep::Ready(Ok(())));
    assert_eq!(remaining, 0);
    assert_eq!(stream.pending, vec![RESPONSE_BYTE; 1024]);
}

#[test]
fn respond_parks_when_credit_runs_out() {
    let id = StreamId::new(Side::Server, Dir::Uni, 0);
    let handle = SendStream::new(id, false);
    let mut conn = ConnState::new(100);
    let mut stream = SendStreamState::new(1 << 20);
    let mut remaining = 1024u64;
    let r = poll_respond(&handle, &mut conn, &mut stream, &mut remaining);
    assert_eq!(r, PollStep::Pending);
    assert_eq!(remaining, 924);
    assert_eq!(stream.pending.len(), 100);
    assert_eq!(conn.blocked_writers, vec![id.value()]);
    // credit returns: the rest goes out
    conn.send_budget = 1 << 20;
    let r = poll_respond(&handle, &mut conn, &mut stream, &mut remaining);
    assert_eq!(r, PollStep::Ready(Ok(())));
    assert_eq!(remaining, 0);
    assert_eq!(stream.pending.len(), 1024);
}

#[test]
fn drain_discards_padding_until_the_fin() {
    let mut recv = RecvStreamState::new(4096);
    assert!(recv.on_stream_frame(0, &[9; 100], false).is_ok());
    assert_eq!(poll_drain(&mut recv), PollStep::Pending);
    assert!(recv.on_stream_frame(100, &[9; 24], true).is_ok());
    assert_eq!(poll_drain(&mut recv), PollStep::Ready(Ok(())));
}

#[test]
fn echo_perf_request_is_served() {
    // A client asks for 1024 bytes: an 8-byte header naming 1024, then
    // padding, then a finish. The server reads the request, opens a
    // stream back, writes 1024 fill bytes, and the client reads exactly
    // those then end-of-stream.
    let mut server_recv = RecvStreamState::new(4096);
    let mut request = encode_request_header(1024);
    request.extend_from_slice(&[0; 1024]);
    assert!(server_recv.on_stream_frame(0, &request, true).is_ok());

    let header = match server_recv.read(8) {
        ReadOutcome::Data(v) => v,
        other => panic!("request header missing: {:?}", other),
    };
    let n = read_request_header(&header).unwrap();
    assert_eq!(n, 1024);
    assert_eq!(poll_drain(&mut server_recv), PollStep::Ready(Ok(())));

    // server response stream
    let id = StreamId::new(Side::Server, Dir::Uni, 0);
    let handle = SendStream::new(id, false);
    let mut conn = ConnState::new(1 << 20);
    let mut stream = SendStreamState::new(1 << 20);
    let mut remaining = n;
    assert_eq!(
        poll_respond(&handle, &mut conn, &mut stream, &mut remaining),
        PollStep::Ready(Ok(()))
    );
    // the handle is dropped: the stream finishes implicitly
    handle.on_drop(&mut conn, &mut stream);

    // deliver every STREAM frame to the client, out of order
    let mut frames = Vec::new();
    while let Some(t) = stream.next_chunk(400) {
        frames.push(t);
        if t_done(&frames) {
            break;
        }
    }
    frames.reverse();
    let mut client_recv = RecvStreamState::new(1 << 20);
    for t in &frames {
        assert!(client_recv
            .on_stream_frame(t.offset as usize, &t.data, t.fin)
            .is_ok());
    }
    let mut got = Vec::new();
    loop {
        match client_recv.read(4096) {
            ReadOutcome::Data(v) => got.extend_from_slice(&v),
            ReadOutcome::Finished => break,
            other => panic!("client read failed: {:?}", other),
        }
    }
    assert_eq!(got, vec![RESPONSE_BYTE; 1024]);
}

fn t_done(frames: &[quic_core::streams::Transmit]) -> bool {
    frames.last().map(|t| t.fin).unwrap_or(false)
}

#[test]
fn loss_and_retransmission_deliver_the_same_stream() {
    // every third chunk is lost on first transmission; retransmissions
    // produce the identical application-visible byte stream
    let mut stream = SendStreamState::new(1 << 20);
    let payload: Vec<u8> = (0..3000u32).map(|i| (i % 251) as u8).collect();
    assert_eq!(stream.write(&payload, 1 << 20), Ok(3000));
    assert!(stream.finish().is_ok());

    let mut recv = RecvStreamState::new(1 << 20);
    let mut k = 0usize;
    let mut retransmitted = 0usize;
    loop {
        let t = match stream.next_chunk(100) {
            Some(t) => t,
            None => break,
        };
        let fin = t.fin;
        if k % 3 == 2 {
            // this chunk is lost in transit
            retransmitted += t.data.len();
            stream.on_loss(t.offset);
        } else {
            assert!(recv.on_stream_frame(t.offset as usize, &t.data, t.fin).is_ok());
        }
        k += 1;
        if fin && k % 3 != 0 {
            // fin delivered on a kept chunk: everything has arrived
            break;
        }
    }
    assert!(retransmitted > 0);
    let mut got = Vec::new();
    loop {
        match recv.read(4096) {
            ReadOutcome::Data(v) => got.extend_from_slice(&v),
            ReadOutcome::Finished => break,
            other => panic!("read failed: {:?}", other),
        }
    }
    assert_eq!(got, payload);
}
