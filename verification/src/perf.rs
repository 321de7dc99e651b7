//! The benchmark protocol the engine ships with: a request is an 8-byte
//! big-endian length followed by arbitrary padding, and the response to a
//! request for `n` bytes is exactly `n` bytes of the fill byte. The
//! decisions live here; an asynchronous adapter owns the sockets.

use crate::recv::{ReadOutcome, RecvStreamState};
use crate::send_stream::{ConnState, PollStep, SendStream, WriteError};
use crate::streams::{SendState, SendStreamState};
use crate::varint::VarInt;
use vstd::arithmetic::div_mod::{lemma_div_denominator, lemma_fundamental_div_mod};
use vstd::prelude::*;

verus! {

/// The byte every response is filled with.
pub const RESPONSE_BYTE: u8 = 0x2A;

/// Largest chunk of response bytes built and handed to the stream in one
/// step.
pub const RESPONSE_CHUNK: usize = 1024 * 1024;

/// The value the first eight bytes of `s` carry, big-endian.
pub open spec fn spec_be_u64(s: Seq<u8>) -> int {
    s[0] * 0x100_0000_0000_0000 + s[1] * 0x1_0000_0000_0000 + s[2] * 0x100_0000_0000 + s[3]
        * 0x1_0000_0000 + s[4] * 0x100_0000 + s[5] * 0x1_0000 + s[6] * 0x100 + s[7]
}

/// Reads a request header: the number of response bytes asked for, carried
/// big-endian in the first eight bytes. `None` exactly where fewer than
/// eight bytes are at hand.
pub fn read_request_header(buf: &[u8]) -> (r: Option<u64>)
    ensures
        buf@.len() >= 8 ==> (r matches Some(n) && n == spec_be_u64(buf@)),
        buf@.len() < 8 ==> r is None,
{
    if buf.len() < 8 {
        return None;
    }
    let n = (buf[0] as u64) * 0x100_0000_0000_0000 + (buf[1] as u64) * 0x1_0000_0000_0000 + (
    buf[2] as u64) * 0x100_0000_0000 + (buf[3] as u64) * 0x1_0000_0000 + (buf[4] as u64)
        * 0x100_0000 + (buf[5] as u64) * 0x1_0000 + (buf[6] as u64) * 0x100 + (buf[7] as u64);
    Some(n)
}

/// Writes a request header: the eight big-endian bytes that carry `n`.
/// Reading the result back yields `n` again.
pub fn encode_request_header(n: u64) -> (r: Vec<u8>)
    ensures
        r@.len() == 8,
        spec_be_u64(r@) == n,
{
    let mut v: Vec<u8> = Vec::new();
    v.push((n / 0x100_0000_0000_0000) as u8);
    v.push((n / 0x1_0000_0000_0000 % 0x100) as u8);
    v.push((n / 0x100_0000_0000 % 0x100) as u8);
    v.push((n / 0x1_0000_0000 % 0x100) as u8);
    v.push((n / 0x100_0000 % 0x100) as u8);
    v.push((n / 0x1_0000 % 0x100) as u8);
    v.push((n / 0x100 % 0x100) as u8);
    v.push((n % 0x100) as u8);
    proof {
        let x = n as int;
        lemma_fundamental_div_mod(x, 0x100);
        lemma_digit_chain(x, 0x100);
        lemma_digit_chain(x, 0x1_0000);
        lemma_digit_chain(x, 0x100_0000);
        lemma_digit_chain(x, 0x1_0000_0000);
        lemma_digit_chain(x, 0x100_0000_0000);
        lemma_digit_chain(x, 0x1_0000_0000_0000);
        assert(x / 0x100_0000_0000_0000 < 0x100) by (nonlinear_arith)
            requires x <= 0xffff_ffff_ffff_ffff;
    }
    v
}

/// Divides out one base-0x100 digit: the digit at weight `d` together with
/// the quotient above it recompose `v / d`.
proof fn lemma_digit_chain(v: int, d: int)
    requires
        0 <= v,
        0 < d,
    ensures
        (v / (d * 0x100)) * 0x100 + (v / d) % 0x100 == v / d,
{
    lemma_div_denominator(v, d, 0x100);
    lemma_fundamental_div_mod(v / d, 0x100);
}

/// A response chunk: `len` bytes of the fill byte.
pub fn response_chunk(len: usize) -> (r: Vec<u8>)
    ensures
        r@.len() == len,
        forall|i: int| 0 <= i < len ==> r@[i] == RESPONSE_BYTE,
{
    let mut v: Vec<u8> = Vec::new();
    while v.len() < len
        invariant
            v@.len() <= len,
            forall|i: int| 0 <= i < v@.len() ==> v@[i] == RESPONSE_BYTE,
        decreases len - v@.len(),
    {
        v.push(RESPONSE_BYTE);
    }
    v
}

/// Polls sending the response to a request for `remaining` more bytes:
/// fill bytes go out as far as stream and connection credit admit,
/// `remaining` counts down what is still owed, the operation completes at
/// zero, and the writer is parked while the rest must wait for credit.
/// Errors leave everything unchanged.
#[verifier::rlimit(60)]
pub fn poll_respond(
    handle: &SendStream,
    conn: &mut ConnState,
    stream: &mut SendStreamState,
    remaining: &mut u64,
) -> (r: PollStep<Result<(), WriteError>>)
    requires
        old(stream).wf(),
    ensures
        final(stream).wf(),
        *old(remaining) == 0 ==> r == PollStep::Ready(Ok::<(), WriteError>(())) && *final(conn)
            == *old(conn) && *final(stream) == *old(stream) && *final(remaining) == 0,
        (*old(remaining) > 0 && handle.spec_0rtt_rejected(*old(conn))) ==> r == PollStep::Ready(
            Err::<(), WriteError>(WriteError::ZeroRttRejected),
        ) && *final(conn) == *old(conn) && *final(stream) == *old(stream) && *final(remaining)
            == *old(remaining),
        (*old(remaining) > 0 && !handle.spec_0rtt_rejected(*old(conn)) && old(conn).error is Some)
            ==> r == PollStep::Ready(Err::<(), WriteError>(WriteError::ConnectionClosed(
            old(conn).error->Some_0,
        ))) && *final(conn) == *old(conn) && *final(stream) == *old(stream) && *final(remaining)
            == *old(remaining),
        (*old(remaining) > 0 && !handle.spec_0rtt_rejected(*old(conn)) && old(conn).error is None)
            ==> {
            &&& (old(stream).state != SendState::Ready ==> r == PollStep::Ready(Err::<
                (),
                WriteError,
            >(WriteError::UnknownStream)) && *final(conn) == *old(conn) && *final(stream) == *old(
                stream,
            ) && *final(remaining) == *old(remaining))
            &&& ((old(stream).state == SendState::Ready && old(stream).stop_reason is Some) ==> r
                == PollStep::Ready(Err::<(), WriteError>(WriteError::Stopped(
                old(stream).stop_reason->Some_0,
            ))) && *final(conn) == *old(conn) && *final(stream) == *old(stream)
                && *final(remaining) == *old(remaining))
            &&& ((old(stream).state == SendState::Ready && old(stream).stop_reason is None) ==> {
                let limit = if old(stream).spec_stream_credit() <= old(conn).send_budget {
                    old(stream).spec_stream_credit()
                } else {
                    old(conn).send_budget as int
                };
                let w = if *old(remaining) <= limit {
                    *old(remaining) as int
                } else {
                    limit
                };
                &&& final(stream).data@.len() == old(stream).data@.len() + w
                &&& final(stream).data@.take(old(stream).data@.len() as int) == old(stream).data@
                &&& *final(stream) == (SendStreamState {
                    data: final(stream).data,
                    pending: final(stream).pending,
                    ..*old(stream)
                })
                &&& (forall|i: int|
                    old(stream).data@.len() <= i < final(stream).data@.len() ==> final(stream).data@[i] == RESPONSE_BYTE)
                &&& *final(remaining) == *old(remaining) - w
                &&& final(conn).send_budget == old(conn).send_budget - w
                &&& (w == *old(remaining) ==> r == PollStep::Ready(Ok::<(), WriteError>(()))
                    && *final(conn) == (ConnState {
                    send_budget: final(conn).send_budget,
                    needs_wake: true,
                    ..*old(conn)
                }))
                &&& (w < *old(remaining) ==> {
                    &&& r == PollStep::<Result<(), WriteError>>::Pending
                    &&& final(conn).blocked_writers@ == old(conn).blocked_writers@ + seq![
                        handle.spec_stream()@,
                    ]
                    &&& *final(conn) == (ConnState {
                        send_budget: final(conn).send_budget,
                        needs_wake: (w > 0 || old(conn).needs_wake),
                        blocked_writers: final(conn).blocked_writers,
                        ..*old(conn)
                    })
                })
            })
        },
{
    proof {
        assert(stream.data@.take(stream.data@.len() as int) =~= stream.data@);
    }
    loop
        invariant_except_break
            stream.wf(),
            *remaining <= *old(remaining),
            conn.send_budget == old(conn).send_budget - (*old(remaining) - *remaining),
            *conn == (ConnState {
                send_budget: conn.send_budget,
                needs_wake: conn.needs_wake,
                ..*old(conn)
            }),
            conn.needs_wake == (*remaining < *old(remaining) || old(conn).needs_wake),
            *stream == (SendStreamState {
                data: stream.data,
                pending: stream.pending,
                ..*old(stream)
            }),
            stream.data@.len() == old(stream).data@.len() + (*old(remaining) - *remaining),
            stream.data@.take(old(stream).data@.len() as int) == old(stream).data@,
            forall|i: int|
                old(stream).data@.len() <= i < stream.data@.len() ==> stream.data@[i]
                    == RESPONSE_BYTE,
            stream.write_offset() == old(stream).write_offset() + (*old(remaining) - *remaining),
            old(stream).wf(),
            *remaining < *old(remaining) ==> (old(stream).state == SendState::Ready && old(
                stream,
            ).stop_reason is None && old(conn).error is None && !handle.spec_0rtt_rejected(
                *old(conn),
            )),
            *remaining == *old(remaining) ==> (*stream == *old(stream) && *conn == *old(conn)),
        ensures
            *remaining == 0,
            stream.wf(),
            *stream == (SendStreamState {
                data: stream.data,
                pending: stream.pending,
                ..*old(stream)
            }),
            conn.send_budget == old(conn).send_budget - (*old(remaining) - *remaining),
            *conn == (ConnState {
                send_budget: conn.send_budget,
                needs_wake: conn.needs_wake,
                ..*old(conn)
            }),
            conn.needs_wake == (*remaining < *old(remaining) || old(conn).needs_wake),
            stream.data@.len() == old(stream).data@.len() + (*old(remaining) - *remaining),
            stream.data@.take(old(stream).data@.len() as int) == old(stream).data@,
            forall|i: int|
                old(stream).data@.len() <= i < stream.data@.len() ==> stream.data@[i]
                    == RESPONSE_BYTE,
            *remaining < *old(remaining) ==> (old(stream).state == SendState::Ready && old(
                stream,
            ).stop_reason is None && old(conn).error is None && !handle.spec_0rtt_rejected(
                *old(conn),
            )),
            *remaining == *old(remaining) ==> (*stream == *old(stream) && *conn == *old(conn)),
        decreases *remaining,
    {
        if *remaining == 0 {
            break ;
        }
        let m: usize = if *remaining < RESPONSE_CHUNK as u64 {
            *remaining as usize
        } else {
            RESPONSE_CHUNK
        };
        let chunk = response_chunk(m);
        let ghost pre = *stream;
        match handle.poll_write(conn, stream, chunk.as_slice()) {
            PollStep::Pending => {
                return PollStep::Pending;
            },
            PollStep::Ready(Err(e)) => {
                return PollStep::Ready(Err(e));
            },
            PollStep::Ready(Ok(n)) => {
                proof {
                    assert(stream.data@ == pre.data@ + chunk@.take(n as int));
                    assert(stream.data@.take(old(stream).data@.len() as int) =~= old(
                        stream,
                    ).data@);
                }
                *remaining = *remaining - n as u64;
                if n < m {
                    // credit ran out with bytes still owed: park the writer
                    conn.blocked_writers.push(handle.id().value());
                    return PollStep::Pending;
                }
            },
        }
    }
    PollStep::Ready(Ok(()))
}

/// Polls draining a receive stream to its end, discarding the padding that
/// follows a request header: reading advances over everything contiguous
/// that has arrived, completes at the stream's final size, reports a reset
/// with the peer's code, and otherwise waits for more frames. Only a peer
/// reset fails the drain.
pub fn poll_drain(recv: &mut RecvStreamState) -> (r: PollStep<Result<(), VarInt>>)
    requires
        old(recv).wf(),
    ensures
        final(recv).wf(),
        old(recv).reset_code matches Some(c) ==> r == PollStep::Ready(Err::<(), VarInt>(c))
            && *final(recv) == (RecvStreamState { reset_read: true, ..*old(recv) }),
        old(recv).reset_code is None ==> {
            &&& (r == PollStep::Ready(Ok::<(), VarInt>(())) || r == PollStep::<
                Result<(), VarInt>,
            >::Pending)
            &&& *final(recv) == (RecvStreamState { read_pos: final(recv).read_pos, ..*old(recv) })
            &&& final(recv).read_pos >= old(recv).read_pos
            &&& (forall|i: int|
                old(recv).read_pos <= i < final(recv).read_pos ==> old(recv).spec_byte_at(i)
                    is Some)
            &&& (r == PollStep::Ready(Ok::<(), VarInt>(())) <==> old(recv).final_size == Some(
                final(recv).read_pos,
            ))
            &&& (r == PollStep::<Result<(), VarInt>>::Pending ==> final(recv).spec_byte_at(
                final(recv).read_pos as int,
            ) is None)
        },
{
    if let Some(code) = recv.reset_code {
        recv.reset_read = true;
        return PollStep::Ready(Err(code));
    }
    loop
        invariant_except_break
            recv.wf(),
            old(recv).wf(),
            *recv == (RecvStreamState { read_pos: recv.read_pos, ..*old(recv) }),
            old(recv).read_pos <= recv.read_pos,
            forall|i: int|
                old(recv).read_pos <= i < recv.read_pos ==> recv.buffer@[i] is Some,
            old(recv).reset_code is None,
        decreases recv.buffer@.len() - recv.read_pos,
    {
        let ghost pre = *recv;
        match recv.read(RESPONSE_CHUNK) {
            ReadOutcome::Data(v) => {
                proof {
                    assert(recv.read_pos == pre.read_pos + v@.len());
                    assert forall|i: int|
                        pre.read_pos <= i < recv.read_pos implies recv.buffer@[i] is Some by {
                        let k = i - pre.read_pos;
                        assert(Some(v@[k]) == pre.spec_byte_at(pre.read_pos + k));
                    }
                }
            },
            ReadOutcome::Finished => {
                proof {
                    assert forall|i: int|
                        old(recv).read_pos <= i < recv.read_pos implies old(recv).spec_byte_at(i)
                        is Some by {
                        assert(recv.buffer@[i] is Some);
                    }
                }
                return PollStep::Ready(Ok(()));
            },
            ReadOutcome::Reset(code) => {
                return PollStep::Ready(Err(code));
            },
            ReadOutcome::Blocked => {
                proof {
                    assert forall|i: int|
                        old(recv).read_pos <= i < recv.read_pos implies old(recv).spec_byte_at(i)
                        is Some by {
                        assert(recv.buffer@[i] is Some);
                    }
                }
                return PollStep::Pending;
            },
        }
    }
}

} // verus!
