//! The application's handle to the send half of a stream, and the poll
//! step of every operation on it. Each poll step is a pure decision over
//! the connection's shared state and the stream's engine state: it returns
//! ready work or asks to be parked, and records which queue the caller's
//! waker belongs on. The asynchronous adapter owns the futures and wakers.

use crate::streams::{FinishError, SendState, SendStreamState, UnknownStream, Written};
use crate::stream_id::StreamId;
use crate::varint::VarInt;
use vstd::prelude::*;

verus! {

/// Reasons a connection ended.
#[derive(Debug, Clone, Copy, PartialEq, Eq, Structural)]
pub enum ConnectionError {
    /// The peer doesn't implement any supported version.
    VersionMismatch,
    /// The peer violated the protocol: a transport error code.
    TransportError(u64),
    /// The peer closed the connection: a transport error code.
    ConnectionClosed(u64),
    /// The peer's application closed the connection: an application error
    /// code.
    ApplicationClosed(u64),
    /// The peer is unable to continue processing this connection, usually
    /// due to having restarted.
    Reset,
    /// Communication with the peer has lapsed for longer than the idle
    /// timeout.
    TimedOut,
    /// The local application closed the connection.
    LocallyClosed,
}

/// Errors that arise from writing to a stream.
#[derive(Debug, Clone, Copy, PartialEq, Eq, Structural)]
pub enum WriteError {
    /// The peer is no longer accepting data on this stream, with its
    /// application error code.
    Stopped(VarInt),
    /// The connection was closed.
    ConnectionClosed(ConnectionError),
    /// The stream has already been finished or reset.
    UnknownStream,
    /// This was a 0-RTT stream and the server rejected it.
    ZeroRttRejected,
}

/// Errors that arise while monitoring for a send stream stop from the
/// peer.
#[derive(Debug, Clone, Copy, PartialEq, Eq, Structural)]
pub enum StoppedError {
    /// The connection was closed.
    ConnectionClosed(ConnectionError),
    /// The stream has already been finished or reset.
    UnknownStream,
    /// This was a 0-RTT stream and the server rejected it.
    ZeroRttRejected,
}

/// One poll step's outcome: finished work, or a request to be parked until
/// the recorded wakeup fires.
#[derive(Debug, Clone, Copy, PartialEq, Eq, Structural)]
pub enum PollStep<T> {
    /// The operation completed with this outcome.
    Ready(T),
    /// The operation cannot progress yet; the caller's waker was parked on
    /// the matching queue of the connection state.
    Pending,
}

/// The slice of per-connection shared state that send-stream operations
/// read and write: the terminal error, the 0-RTT verdict, the park queues,
/// the driver wakeup flag, and the connection-level send budget.
#[derive(Debug, Clone)]
pub struct ConnState {
    /// Set once the connection has ended, with the reason; fatal.
    pub error: Option<ConnectionError>,
    /// Whether the server rejected our 0-RTT data; streams opened in 0-RTT
    /// then fail with `ZeroRttRejected`.
    pub zero_rtt_rejected: bool,
    /// Streams whose writers wait for flow-control credit.
    pub blocked_writers: Vec<u64>,
    /// Streams whose finish waits for the peer's acknowledgement.
    pub finishing: Vec<u64>,
    /// Streams watched for a STOP_SENDING from the peer.
    pub stopped: Vec<u64>,
    /// Whether the connection driver must run again to emit work.
    pub needs_wake: bool,
    /// Bytes the connection currently lets streams send: the remaining
    /// minimum of the peer's connection flow-control credit and the local
    /// send window.
    pub send_budget: u64,
}

impl ConnState {
    /// A connection that is open, carries no 0-RTT verdict, and lets
    /// streams send `send_budget` bytes.
    pub fn new(send_budget: u64) -> (r: ConnState)
        ensures
            r.error is None,
            !r.zero_rtt_rejected,
            r.blocked_writers@.len() == 0,
            r.finishing@.len() == 0,
            r.stopped@.len() == 0,
            !r.needs_wake,
            r.send_budget == send_budget,
    {
        ConnState {
            error: None,
            zero_rtt_rejected: false,
            blocked_writers: Vec::new(),
            finishing: Vec::new(),
            stopped: Vec::new(),
            needs_wake: false,
            send_budget,
        }
    }
}


/// The bytes of the chunks of `bufs` from position `from` on, in order, as
/// one sequence.
pub open spec fn flatten_from(bufs: Seq<Vec<u8>>, from: int) -> Seq<u8>
    decreases bufs.len() - from,
{
    if from < 0 || from >= bufs.len() {
        Seq::empty()
    } else {
        bufs[from]@ + flatten_from(bufs, from + 1)
    }
}

/// The chunks at or past `from` alone determine the flattened tail.
proof fn lemma_flatten_from_congruence(a: Seq<Vec<u8>>, b: Seq<Vec<u8>>, from: int)
    requires
        a.len() == b.len(),
        forall|j: int| from <= j < a.len() ==> a[j]@ == b[j]@,
    ensures
        flatten_from(a, from) == flatten_from(b, from),
    decreases a.len() - from,
{
    if 0 <= from && from < a.len() {
        lemma_flatten_from_congruence(a, b, from + 1);
    }
}

/// Empty chunks in front contribute nothing to the flattened tail.
proof fn lemma_flatten_from_empty_prefix(bufs: Seq<Vec<u8>>, from: int, to: int)
    requires
        0 <= from <= to <= bufs.len(),
        forall|j: int| from <= j < to ==> bufs[j]@.len() == 0,
    ensures
        flatten_from(bufs, from) == flatten_from(bufs, to),
    decreases to - from,
{
    if from < to {
        assert(bufs[from]@ + flatten_from(bufs, from + 1) =~= flatten_from(bufs, from + 1));
        lemma_flatten_from_empty_prefix(bufs, from + 1, to);
    }
}

/// A stream that can only be used to send data.
///
/// If dropped, streams that haven't been explicitly reset will continue to
/// (re)transmit previously written data until it has been fully
/// acknowledged or the connection is closed.
#[derive(Debug, Clone, Copy, PartialEq, Eq, Structural)]
pub struct SendStream {
    stream: StreamId,
    is_0rtt: bool,
    /// Whether this handle has already asked the engine to finish the
    /// stream.
    finishing: bool,
}

impl SendStream {
    pub closed spec fn spec_stream(self) -> StreamId {
        self.stream
    }

    pub closed spec fn spec_is_0rtt(self) -> bool {
        self.is_0rtt
    }

    pub closed spec fn spec_finishing(self) -> bool {
        self.finishing
    }

    /// A fresh handle to the given stream.
    pub fn new(stream: StreamId, is_0rtt: bool) -> (r: SendStream)
        ensures
            r.spec_stream() == stream,
            r.spec_is_0rtt() == is_0rtt,
            !r.spec_finishing(),
    {
        SendStream { stream, is_0rtt, finishing: false }
    }

    /// Get the identity of this stream.
    pub fn id(&self) -> (r: StreamId)
        ensures
            r == self.spec_stream(),
    {
        self.stream
    }

    /// Whether this handle's 0-RTT data was rejected, which every
    /// operation must report before touching the stream.
    pub open spec fn spec_0rtt_rejected(self, conn: ConnState) -> bool {
        self.spec_is_0rtt() && conn.zero_rtt_rejected
    }

    /// One poll step of writing `bytes` to the stream. Yields the number
    /// of bytes written, a prefix of `bytes` bounded by stream and
    /// connection credit; parks the writer while no credit is available;
    /// and fails, touching nothing, where 0-RTT was rejected, the
    /// connection has ended, the peer stopped the stream, or the stream
    /// was already finished or reset. After a connection error no stream
    /// data is ever accepted, so nothing new can reach the wire.
    pub fn poll_write(
        &self,
        conn: &mut ConnState,
        stream: &mut SendStreamState,
        bytes: &[u8],
    ) -> (r: PollStep<Result<usize, WriteError>>)
        requires
            old(stream).wf(),
        ensures
            final(stream).wf(),
            self.spec_0rtt_rejected(*old(conn)) ==> r == PollStep::Ready(Err::<usize, WriteError>(
                WriteError::ZeroRttRejected,
            )) && *final(conn) == *old(conn) && *final(stream) == *old(stream),
            (!self.spec_0rtt_rejected(*old(conn)) && old(conn).error is Some) ==> r
                == PollStep::Ready(Err::<usize, WriteError>(WriteError::ConnectionClosed(
                old(conn).error->Some_0,
            ))) && *final(conn) == *old(conn) && *final(stream) == *old(stream),
            (!self.spec_0rtt_rejected(*old(conn)) && old(conn).error is None) ==> {
                &&& (old(stream).state != SendState::Ready ==> r == PollStep::Ready(Err::<
                    usize,
                    WriteError,
                >(WriteError::UnknownStream)) && *final(conn) == *old(conn) && *final(stream)
                    == *old(stream))
                &&& ((old(stream).state == SendState::Ready && old(stream).stop_reason is Some)
                    ==> r == PollStep::Ready(Err::<usize, WriteError>(WriteError::Stopped(
                    old(stream).stop_reason->Some_0,
                ))) && *final(conn) == *old(conn) && *final(stream) == *old(stream))
                &&& ((old(stream).state == SendState::Ready && old(stream).stop_reason is None)
                    ==> {
                    let limit = if old(stream).spec_stream_credit() <= old(conn).send_budget {
                        old(stream).spec_stream_credit()
                    } else {
                        old(conn).send_budget as int
                    };
                    if bytes@.len() > 0 && limit == 0 {
                        // parked: the stream id joins the blocked writers
                        &&& r == PollStep::<Result<usize, WriteError>>::Pending
                        &&& *final(stream) == *old(stream)
                        &&& *final(conn) == (ConnState {
                            blocked_writers: final(conn).blocked_writers,
                            ..*old(conn)
                        })
                        &&& final(conn).blocked_writers@ == old(conn).blocked_writers@ + seq![
                            self.spec_stream()@,
                        ]
                    } else {
                        let n = if bytes@.len() <= limit {
                            bytes@.len() as int
                        } else {
                            limit
                        };
                        &&& r == PollStep::Ready(Ok::<usize, WriteError>(n as usize))
                        &&& final(stream).data@ == old(stream).data@ + bytes@.take(n)
                        &&& final(stream).pending@ == old(stream).pending@ + bytes@.take(n)
                        &&& final(stream).write_offset() == old(stream).write_offset() + n
                        &&& *final(stream) == (SendStreamState {
                            data: final(stream).data,
                            pending: final(stream).pending,
                            ..*old(stream)
                        })
                        &&& final(conn).send_budget == old(conn).send_budget - n
                        &&& *final(conn) == (ConnState {
                            send_budget: final(conn).send_budget,
                            needs_wake: true,
                            ..*old(conn)
                        })
                    }
                })
            },
    {
        if self.is_0rtt && conn.zero_rtt_rejected {
            return PollStep::Ready(Err(WriteError::ZeroRttRejected));
        }
        if let Some(e) = conn.error {
            return PollStep::Ready(Err(WriteError::ConnectionClosed(e)));
        }
        let blen: usize = bytes.len();
        proof {
            assert(bytes@.len() == blen);
        }
        match stream.write(bytes, conn.send_budget) {
            Ok(n) => {
                conn.send_budget = conn.send_budget - n as u64;
                conn.needs_wake = true;
                PollStep::Ready(Ok(n))
            },
            Err(crate::streams::WriteError::Blocked) => {
                conn.blocked_writers.push(self.stream.value());
                PollStep::Pending
            },
            Err(crate::streams::WriteError::Stopped(code)) => {
                PollStep::Ready(Err(WriteError::Stopped(code)))
            },
            Err(crate::streams::WriteError::UnknownStream) => {
                PollStep::Ready(Err(WriteError::UnknownStream))
            },
        }
    }

    /// One poll step of gracefully shutting the stream down. The first
    /// step hands the engine the finish and parks the caller; later steps
    /// complete once the peer has acknowledged everything up to the FIN,
    /// fail with `Stopped` where the peer stopped the stream instead, and
    /// check for a connection error only after those, so a stream that
    /// finished before the connection ended still reports success.
    pub fn poll_finish(&mut self, conn: &mut ConnState, stream: &mut SendStreamState) -> (r:
        PollStep<Result<(), WriteError>>)
        requires
            old(stream).wf(),
        ensures
            final(stream).wf(),
            old(self).spec_0rtt_rejected(*old(conn)) ==> r == PollStep::Ready(Err::<
                (),
                WriteError,
            >(WriteError::ZeroRttRejected)) && *final(conn) == *old(conn) && *final(stream)
                == *old(stream) && *final(self) == *old(self),
            !old(self).spec_0rtt_rejected(*old(conn)) ==> {
                if !old(self).spec_finishing() {
                    // the step that asks the engine to finish
                    if old(stream).state != SendState::Ready {
                        &&& r == PollStep::Ready(Err::<(), WriteError>(WriteError::UnknownStream))
                        &&& *final(conn) == *old(conn)
                        &&& *final(stream) == *old(stream)
                        &&& *final(self) == *old(self)
                    } else if old(stream).stop_reason is Some {
                        &&& r == PollStep::Ready(Err::<(), WriteError>(WriteError::Stopped(
                            old(stream).stop_reason->Some_0,
                        )))
                        &&& *final(conn) == *old(conn)
                        &&& *final(stream) == *old(stream)
                        &&& *final(self) == *old(self)
                    } else {
                        &&& final(self).spec_finishing()
                        &&& *final(stream) == (SendStreamState {
                            state: SendState::DataSent,
                            ..*old(stream)
                        })
                        &&& final(conn).finishing@ == old(conn).finishing@ + seq![
                            old(self).spec_stream()@,
                        ]
                        &&& *final(conn) == (ConnState {
                            finishing: final(conn).finishing,
                            needs_wake: true,
                            ..*old(conn)
                        })
                        &&& r == (if old(conn).error is Some {
                            PollStep::Ready(Err::<(), WriteError>(WriteError::ConnectionClosed(
                                old(conn).error->Some_0,
                            )))
                        } else {
                            PollStep::<Result<(), WriteError>>::Pending
                        })
                    }
                } else {
                    // later steps: read the engine's verdict
                    &&& *final(stream) == *old(stream)
                    &&& *final(self) == *old(self)
                    &&& *final(conn) == *old(conn)
                    &&& r == (if old(stream).state == SendState::DataRecvd {
                        PollStep::Ready(Ok::<(), WriteError>(()))
                    } else if old(stream).stop_reason is Some {
                        PollStep::Ready(Err::<(), WriteError>(WriteError::Stopped(
                            old(stream).stop_reason->Some_0,
                        )))
                    } else if old(conn).error is Some {
                        PollStep::Ready(Err::<(), WriteError>(WriteError::ConnectionClosed(
                            old(conn).error->Some_0,
                        )))
                    } else {
                        PollStep::<Result<(), WriteError>>::Pending
                    })
                }
            },
    {
        if self.is_0rtt && conn.zero_rtt_rejected {
            return PollStep::Ready(Err(WriteError::ZeroRttRejected));
        }
        if !self.finishing {
            match stream.finish() {
                Ok(()) => {},
                Err(FinishError::UnknownStream) => {
                    return PollStep::Ready(Err(WriteError::UnknownStream));
                },
                Err(FinishError::Stopped(code)) => {
                    return PollStep::Ready(Err(WriteError::Stopped(code)));
                },
            }
            self.finishing = true;
            conn.finishing.push(self.stream.value());
            conn.needs_wake = true;
            // A finish just handed to the engine cannot have been
            // acknowledged yet; only a connection error resolves it now.
            if let Some(e) = conn.error {
                return PollStep::Ready(Err(WriteError::ConnectionClosed(e)));
            }
            return PollStep::Pending;
        }
        if matches!(stream.state, SendState::DataRecvd) {
            return PollStep::Ready(Ok(()));
        }
        if let Some(code) = stream.stop_reason {
            return PollStep::Ready(Err(WriteError::Stopped(code)));
        }
        // Check for a connection error only after the stream's own
        // verdict, so a finish that completed before the connection ended
        // still reports success.
        if let Some(e) = conn.error {
            return PollStep::Ready(Err(WriteError::ConnectionClosed(e)));
        }
        PollStep::Pending
    }

    /// Close the send stream immediately: buffered data is dropped and
    /// will not be retransmitted. On a stream whose 0-RTT was rejected
    /// this is a no-op that still succeeds.
    pub fn reset(
        &self,
        conn: &mut ConnState,
        stream: &mut SendStreamState,
        error_code: VarInt,
    ) -> (r: Result<(), UnknownStream>)
        requires
            old(stream).wf(),
        ensures
            final(stream).wf(),
            self.spec_0rtt_rejected(*old(conn)) ==> r is Ok && *final(conn) == *old(conn)
                && *final(stream) == *old(stream),
            !self.spec_0rtt_rejected(*old(conn)) ==> {
                if old(stream).state == SendState::Ready || old(stream).state
                    == SendState::DataSent {
                    &&& r is Ok
                    &&& final(stream).state == SendState::ResetSent
                    &&& final(stream).data@ == old(stream).data@.take(old(stream).acked as int)
                    &&& *final(conn) == (ConnState { needs_wake: true, ..*old(conn) })
                } else {
                    &&& r is Err
                    &&& *final(conn) == *old(conn)
                    &&& *final(stream) == *old(stream)
                }
            },
    {
        if self.is_0rtt && conn.zero_rtt_rejected {
            return Ok(());
        }
        match stream.reset(error_code) {
            Ok(()) => {
                conn.needs_wake = true;
                Ok(())
            },
            Err(e) => Err(e),
        }
    }

    /// Set the priority of the send stream. Data of streams with higher
    /// priority is transmitted first.
    pub fn set_priority(&self, stream: &mut SendStreamState, priority: i32) -> (r: Result<
        (),
        UnknownStream,
    >)
        requires
            old(stream).wf(),
        ensures
            final(stream).wf(),
            !old(stream).is_gone() <==> r is Ok,
            r is Ok ==> *final(stream) == (SendStreamState { priority, ..*old(stream) }),
            r is Err ==> *final(stream) == *old(stream),
    {
        stream.set_priority(priority)
    }

    /// Get the priority of the send stream.
    pub fn priority(&self, stream: &SendStreamState) -> (r: Result<i32, UnknownStream>)
        requires
            stream.wf(),
        ensures
            !stream.is_gone() <==> r is Ok,
            r is Ok ==> r == Ok::<i32, UnknownStream>(stream.priority),
    {
        stream.priority()
    }

    /// One poll step of waiting for the peer to stop the stream. Yields
    /// the peer's error code once a STOP_SENDING arrived, parks the caller
    /// while the stream is healthy, and fails where 0-RTT was rejected or
    /// the stream is already gone.
    pub fn poll_stopped(&self, conn: &mut ConnState, stream: &SendStreamState) -> (r: PollStep<
        Result<VarInt, StoppedError>,
    >)
        requires
            stream.wf(),
        ensures
            self.spec_0rtt_rejected(*old(conn)) ==> r == PollStep::Ready(Err::<
                VarInt,
                StoppedError,
            >(StoppedError::ZeroRttRejected)) && *final(conn) == *old(conn),
            !self.spec_0rtt_rejected(*old(conn)) ==> {
                if stream.is_gone() {
                    r == PollStep::Ready(Err::<VarInt, StoppedError>(StoppedError::UnknownStream))
                        && *final(conn) == *old(conn)
                } else if stream.stop_reason is Some {
                    r == PollStep::Ready(Ok::<VarInt, StoppedError>(stream.stop_reason->Some_0))
                        && *final(conn) == *old(conn)
                } else {
                    &&& r == PollStep::<Result<VarInt, StoppedError>>::Pending
                    &&& final(conn).stopped@ == old(conn).stopped@ + seq![self.spec_stream()@]
                    &&& *final(conn) == (ConnState { stopped: final(conn).stopped, ..*old(conn) })
                }
            },
    {
        if self.is_0rtt && conn.zero_rtt_rejected {
            return PollStep::Ready(Err(StoppedError::ZeroRttRejected));
        }
        match stream.stopped() {
            Err(_) => PollStep::Ready(Err(StoppedError::UnknownStream)),
            Ok(Some(code)) => PollStep::Ready(Ok(code)),
            Ok(None) => {
                conn.stopped.push(self.stream.value());
                PollStep::Pending
            },
        }
    }

    /// Polls writing the whole remainder of `bytes`: the cursor `from`
    /// advances over what stream and connection credit admit now, the
    /// operation completes once the cursor reaches the end, and the writer
    /// is parked while the rest must wait for credit. An exhausted cursor
    /// completes at once, touching nothing; errors leave everything
    /// unchanged.
    pub fn poll_write_all(
        &self,
        conn: &mut ConnState,
        stream: &mut SendStreamState,
        bytes: &[u8],
        from: &mut usize,
    ) -> (r: PollStep<Result<(), WriteError>>)
        requires
            old(stream).wf(),
            *old(from) <= bytes@.len(),
        ensures
            final(stream).wf(),
            *old(from) == bytes@.len() ==> r == PollStep::Ready(Ok::<(), WriteError>(()))
                && *final(conn) == *old(conn) && *final(stream) == *old(stream) && *final(from)
                == *old(from),
            (*old(from) < bytes@.len() && self.spec_0rtt_rejected(*old(conn))) ==> r
                == PollStep::Ready(Err::<(), WriteError>(WriteError::ZeroRttRejected))
                && *final(conn) == *old(conn) && *final(stream) == *old(stream) && *final(from)
                == *old(from),
            (*old(from) < bytes@.len() && !self.spec_0rtt_rejected(*old(conn)) && old(conn).error
                is Some) ==> r == PollStep::Ready(Err::<(), WriteError>(
                WriteError::ConnectionClosed(old(conn).error->Some_0),
            )) && *final(conn) == *old(conn) && *final(stream) == *old(stream) && *final(from)
                == *old(from),
            (*old(from) < bytes@.len() && !self.spec_0rtt_rejected(*old(conn)) && old(conn).error
                is None) ==> {
                &&& (old(stream).state != SendState::Ready ==> r == PollStep::Ready(Err::<
                    (),
                    WriteError,
                >(WriteError::UnknownStream)) && *final(conn) == *old(conn) && *final(stream)
                    == *old(stream) && *final(from) == *old(from))
                &&& ((old(stream).state == SendState::Ready && old(stream).stop_reason is Some)
                    ==> r == PollStep::Ready(Err::<(), WriteError>(WriteError::Stopped(
                    old(stream).stop_reason->Some_0,
                ))) && *final(conn) == *old(conn) && *final(stream) == *old(stream) && *final(from)
                    == *old(from))
                &&& ((old(stream).state == SendState::Ready && old(stream).stop_reason is None)
                    ==> {
                    let limit = if old(stream).spec_stream_credit() <= old(conn).send_budget {
                        old(stream).spec_stream_credit()
                    } else {
                        old(conn).send_budget as int
                    };
                    let rem = bytes@.len() - *old(from);
                    let w = if rem <= limit {
                        rem
                    } else {
                        limit
                    };
                    if limit == 0 {
                        &&& r == PollStep::<Result<(), WriteError>>::Pending
                        &&& *final(stream) == *old(stream)
                        &&& *final(from) == *old(from)
                        &&& final(conn).blocked_writers@ == old(conn).blocked_writers@ + seq![
                            self.spec_stream()@,
                        ]
                        &&& *final(conn) == (ConnState {
                            blocked_writers: final(conn).blocked_writers,
                            ..*old(conn)
                        })
                    } else {
                        &&& final(stream).data@ == old(stream).data@ + bytes@.subrange(
                            *old(from) as int,
                            *old(from) + w,
                        )
                        &&& *final(stream) == (SendStreamState {
                            data: final(stream).data,
                            pending: final(stream).pending,
                            ..*old(stream)
                        })
                        &&& *final(from) == *old(from) + w
                        &&& final(conn).send_budget == old(conn).send_budget - w
                        &&& final(conn).needs_wake
                        &&& (w == rem ==> r == PollStep::Ready(Ok::<(), WriteError>(()))
                            && *final(conn) == (ConnState {
                            send_budget: final(conn).send_budget,
                            needs_wake: true,
                            ..*old(conn)
                        }))
                        &&& (w < rem ==> {
                            &&& r == PollStep::<Result<(), WriteError>>::Pending
                            &&& final(conn).blocked_writers@ == old(conn).blocked_writers@ + seq![
                                self.spec_stream()@,
                            ]
                            &&& *final(conn) == (ConnState {
                                send_budget: final(conn).send_budget,
                                needs_wake: true,
                                blocked_writers: final(conn).blocked_writers,
                                ..*old(conn)
                            })
                        })
                    }
                })
            },
    {
        let len = bytes.len();
        if *from == len {
            return PollStep::Ready(Ok(()));
        }
        let ghost f0 = *from as int;
        match self.poll_write(conn, stream, &bytes[*from..len]) {
            PollStep::Pending => PollStep::Pending,
            PollStep::Ready(Err(e)) => PollStep::Ready(Err(e)),
            PollStep::Ready(Ok(n)) => {
                proof {
                    assert(bytes@.subrange(f0, len as int).take(n as int) =~= bytes@.subrange(
                        f0,
                        f0 + n,
                    ));
                }
                proof {
                    assert(old(stream).state == SendState::Ready);
                }
                *from = *from + n;
                if *from == len {
                    PollStep::Ready(Ok(()))
                } else {
                    // credit ran out with data left: park the writer
                    conn.blocked_writers.push(self.stream.value());
                    PollStep::Pending
                }
            },
        }
    }

    /// Polls writing one chunk in its entirety: the chunk loses the prefix
    /// that stream and connection credit admit now, the operation completes
    /// once the chunk is empty, and the writer is parked while the rest
    /// must wait for credit. An empty chunk completes at once, touching
    /// nothing; errors leave everything unchanged.
    pub fn poll_write_chunk(
        &self,
        conn: &mut ConnState,
        stream: &mut SendStreamState,
        buf: &mut Vec<u8>,
    ) -> (r: PollStep<Result<(), WriteError>>)
        requires
            old(stream).wf(),
        ensures
            final(stream).wf(),
            old(buf)@.len() == 0 ==> r == PollStep::Ready(Ok::<(), WriteError>(())) && *final(conn)
                == *old(conn) && *final(stream) == *old(stream) && *final(buf) == *old(buf),
            (old(buf)@.len() > 0 && self.spec_0rtt_rejected(*old(conn))) ==> r == PollStep::Ready(
                Err::<(), WriteError>(WriteError::ZeroRttRejected),
            ) && *final(conn) == *old(conn) && *final(stream) == *old(stream) && final(buf)@
                == old(buf)@,
            (old(buf)@.len() > 0 && !self.spec_0rtt_rejected(*old(conn)) && old(conn).error
                is Some) ==> r == PollStep::Ready(Err::<(), WriteError>(
                WriteError::ConnectionClosed(old(conn).error->Some_0),
            )) && *final(conn) == *old(conn) && *final(stream) == *old(stream) && final(buf)@
                == old(buf)@,
            (old(buf)@.len() > 0 && !self.spec_0rtt_rejected(*old(conn)) && old(conn).error
                is None) ==> {
                &&& (old(stream).state != SendState::Ready ==> r == PollStep::Ready(Err::<
                    (),
                    WriteError,
                >(WriteError::UnknownStream)) && *final(conn) == *old(conn) && *final(stream)
                    == *old(stream) && final(buf)@ == old(buf)@)
                &&& ((old(stream).state == SendState::Ready && old(stream).stop_reason is Some)
                    ==> r == PollStep::Ready(Err::<(), WriteError>(WriteError::Stopped(
                    old(stream).stop_reason->Some_0,
                ))) && *final(conn) == *old(conn) && *final(stream) == *old(stream) && final(buf)@
                    == old(buf)@)
                &&& ((old(stream).state == SendState::Ready && old(stream).stop_reason is None)
                    ==> {
                    let limit = if old(stream).spec_stream_credit() <= old(conn).send_budget {
                        old(stream).spec_stream_credit()
                    } else {
                        old(conn).send_budget as int
                    };
                    let rem = old(buf)@.len() as int;
                    let w = if rem <= limit {
                        rem
                    } else {
                        limit
                    };
                    if limit == 0 {
                        &&& r == PollStep::<Result<(), WriteError>>::Pending
                        &&& *final(stream) == *old(stream)
                        &&& final(buf)@ == old(buf)@
                        &&& final(conn).blocked_writers@ == old(conn).blocked_writers@ + seq![
                            self.spec_stream()@,
                        ]
                        &&& *final(conn) == (ConnState {
                            blocked_writers: final(conn).blocked_writers,
                            ..*old(conn)
                        })
                    } else {
                        &&& final(stream).data@ == old(stream).data@ + old(buf)@.take(w)
                        &&& *final(stream) == (SendStreamState {
                            data: final(stream).data,
                            pending: final(stream).pending,
                            ..*old(stream)
                        })
                        &&& final(buf)@ == old(buf)@.skip(w)
                        &&& final(conn).send_budget == old(conn).send_budget - w
                        &&& final(conn).needs_wake
                        &&& (w == rem ==> r == PollStep::Ready(Ok::<(), WriteError>(()))
                            && *final(conn) == (ConnState {
                            send_budget: final(conn).send_budget,
                            needs_wake: true,
                            ..*old(conn)
                        }))
                        &&& (w < rem ==> {
                            &&& r == PollStep::<Result<(), WriteError>>::Pending
                            &&& final(conn).blocked_writers@ == old(conn).blocked_writers@ + seq![
                                self.spec_stream()@,
                            ]
                            &&& *final(conn) == (ConnState {
                                send_budget: final(conn).send_budget,
                                needs_wake: true,
                                blocked_writers: final(conn).blocked_writers,
                                ..*old(conn)
                            })
                        })
                    }
                })
            },
    {
        if buf.len() == 0 {
            return PollStep::Ready(Ok(()));
        }
        match self.poll_write(conn, stream, buf.as_slice()) {
            PollStep::Pending => PollStep::Pending,
            PollStep::Ready(Err(e)) => PollStep::Ready(Err(e)),
            PollStep::Ready(Ok(n)) => {
                let blen = buf.len();
                let mut rest: Vec<u8> = Vec::new();
                let mut i: usize = n;
                while i < blen
                    invariant
                        n <= i <= blen,
                        blen == buf@.len(),
                        buf@ == old(buf)@,
                        rest@ == old(buf)@.subrange(n as int, i as int),
                    decreases blen - i,
                {
                    rest.push(buf[i]);
                    proof {
                        assert(rest@ =~= old(buf)@.subrange(n as int, i + 1));
                    }
                    i = i + 1;
                }
                proof {
                    assert(rest@ =~= old(buf)@.skip(n as int));
                    assert(old(buf)@.take(old(buf)@.len() as int) =~= old(buf)@);
                }
                *buf = rest;
                if buf.len() == 0 {
                    PollStep::Ready(Ok(()))
                } else {
                    // credit ran out with data left: park the writer
                    conn.blocked_writers.push(self.stream.value());
                    PollStep::Pending
                }
            },
        }
    }

    /// Polls writing from a row of chunks, starting at chunk `from`:
    /// chunks are consumed in order as far as stream and connection credit
    /// admit, a chunk written in its entirety is left empty, a chunk cut
    /// short keeps its unwritten suffix, and the count of bytes and of
    /// whole chunks comes back. The writer is parked only where nothing at
    /// all could be written; errors leave everything unchanged.
    #[verifier::rlimit(80)]
    pub fn poll_write_chunks(
        &self,
        conn: &mut ConnState,
        stream: &mut SendStreamState,
        bufs: &mut Vec<Vec<u8>>,
        from: usize,
    ) -> (r: PollStep<Result<Written, WriteError>>)
        requires
            old(stream).wf(),
            from <= old(bufs)@.len(),
        ensures
            final(stream).wf(),
            self.spec_0rtt_rejected(*old(conn)) ==> r == PollStep::Ready(Err::<
                Written,
                WriteError,
            >(WriteError::ZeroRttRejected)) && *final(conn) == *old(conn) && *final(stream)
                == *old(stream) && final(bufs)@ == old(bufs)@,
            (!self.spec_0rtt_rejected(*old(conn)) && old(conn).error is Some) ==> r
                == PollStep::Ready(Err::<Written, WriteError>(WriteError::ConnectionClosed(
                old(conn).error->Some_0,
            ))) && *final(conn) == *old(conn) && *final(stream) == *old(stream) && final(bufs)@
                == old(bufs)@,
            (!self.spec_0rtt_rejected(*old(conn)) && old(conn).error is None) ==> {
                &&& (from == old(bufs)@.len() ==> (r matches PollStep::Ready(Ok(written))
                    && written.bytes == 0 && written.chunks == 0) && *final(conn) == (ConnState {
                    needs_wake: true,
                    ..*old(conn)
                }) && *final(stream) == *old(stream) && final(bufs)@ == old(bufs)@)
                &&& ((from < old(bufs)@.len() && old(stream).state != SendState::Ready) ==> r
                    == PollStep::Ready(Err::<Written, WriteError>(WriteError::UnknownStream))
                    && *final(conn) == *old(conn) && *final(stream) == *old(stream) && final(bufs)@
                    == old(bufs)@)
                &&& ((from < old(bufs)@.len() && old(stream).state == SendState::Ready
                    && old(stream).stop_reason is Some) ==> r == PollStep::Ready(Err::<
                    Written,
                    WriteError,
                >(WriteError::Stopped(old(stream).stop_reason->Some_0))) && *final(conn) == *old(
                    conn,
                ) && *final(stream) == *old(stream) && final(bufs)@ == old(bufs)@)
                &&& ((old(stream).state == SendState::Ready && old(stream).stop_reason is None)
                    ==> {
                    let limit = if old(stream).spec_stream_credit() <= old(conn).send_budget {
                        old(stream).spec_stream_credit()
                    } else {
                        old(conn).send_budget as int
                    };
                    let flat = flatten_from(old(bufs)@, from as int);
                    let rem = flat.len() as int;
                    let w = if rem <= limit {
                        rem
                    } else {
                        limit
                    };
                    if from < old(bufs)@.len() && old(bufs)@[from as int]@.len() > 0 && limit
                        == 0 {
                        // nothing could be written: park the writer
                        &&& r == PollStep::<Result<Written, WriteError>>::Pending
                        &&& *final(stream) == *old(stream)
                        &&& final(bufs)@ == old(bufs)@
                        &&& final(conn).blocked_writers@ == old(conn).blocked_writers@ + seq![
                            self.spec_stream()@,
                        ]
                        &&& *final(conn) == (ConnState {
                            blocked_writers: final(conn).blocked_writers,
                            ..*old(conn)
                        })
                    } else {
                        &&& r matches PollStep::Ready(Ok(written)) && {
                            &&& written.bytes == w
                            &&& from + written.chunks <= old(bufs)@.len()
                            &&& final(stream).data@ == old(stream).data@ + flat.take(w)
                            &&& final(stream).write_offset() == old(stream).write_offset() + w
                            &&& *final(stream) == (SendStreamState {
                                data: final(stream).data,
                                pending: final(stream).pending,
                                ..*old(stream)
                            })
                            &&& flatten_from(final(bufs)@, from as int) == flat.skip(w)
                            &&& final(bufs)@.len() == old(bufs)@.len()
                            &&& (forall|j: int|
                                0 <= j < old(bufs)@.len() && !(from <= j <= from + written.chunks)
                                    ==> final(bufs)@[j] == old(bufs)@[j])
                            &&& (forall|j: int|
                                from <= j < from + written.chunks ==> final(bufs)@[j]@.len() == 0)
                            &&& final(conn).send_budget == old(conn).send_budget - w
                            &&& *final(conn) == (ConnState {
                                send_budget: final(conn).send_budget,
                                needs_wake: true,
                                ..*old(conn)
                            })
                            &&& (from + written.chunks < old(bufs)@.len() ==> final(bufs)@[
                                from + written.chunks
                            ]@.len() > 0 && w == limit)
                        }
                    }
                })
            },
    {
        if self.is_0rtt && conn.zero_rtt_rejected {
            return PollStep::Ready(Err(WriteError::ZeroRttRejected));
        }
        if let Some(e) = conn.error {
            return PollStep::Ready(Err(WriteError::ConnectionClosed(e)));
        }
        let ghost bufs0 = bufs@;
        let ghost flat = flatten_from(bufs0, from as int);
        let len = bufs.len();
        let mut i: usize = from;
        let mut wbytes: usize = 0;
        loop
            invariant_except_break
                stream.wf(),
                from <= i <= len,
                len == bufs@.len(),
                bufs@.len() == bufs0.len(),
                forall|j: int| 0 <= j < bufs0.len() && !(from <= j < i) ==> bufs@[j] == bufs0[j],
                forall|j: int| from <= j < i ==> bufs@[j]@.len() == 0,
                i > from ==> (old(stream).state == SendState::Ready && old(stream).stop_reason
                    is None),
                *conn == (ConnState { send_budget: conn.send_budget, ..*old(conn) }),
                conn.send_budget == old(conn).send_budget - wbytes,
                old(conn).error is None,
                !self.spec_0rtt_rejected(*old(conn)),
                *stream == (SendStreamState {
                    data: stream.data,
                    pending: stream.pending,
                    ..*old(stream)
                }),
                stream.data@ == old(stream).data@ + flat.take(wbytes as int),
                stream.write_offset() == old(stream).write_offset() + wbytes,
                old(stream).wf(),
                from <= bufs0.len(),
                bufs0 == old(bufs)@,
                flat == flatten_from(bufs0, from as int),
                flatten_from(bufs0, i as int) == flat.skip(wbytes as int),
                wbytes <= flat.len(),
                i > from ==> bufs0[from as int]@.len() <= wbytes,
                i == from ==> wbytes == 0 && *stream == *old(stream) && *conn == *old(conn),
            ensures
                from <= i <= len,
                len == bufs@.len() == bufs0.len(),
                forall|j: int| 0 <= j < bufs0.len() && !(from <= j <= i) ==> bufs@[j] == bufs0[j],
                forall|j: int| from <= j < i ==> bufs@[j]@.len() == 0,
                *conn == (ConnState { send_budget: conn.send_budget, ..*old(conn) }),
                conn.send_budget == old(conn).send_budget - wbytes,
                *stream == (SendStreamState {
                    data: stream.data,
                    pending: stream.pending,
                    ..*old(stream)
                }),
                stream.wf(),
                stream.data@ == old(stream).data@ + flat.take(wbytes as int),
                stream.write_offset() == old(stream).write_offset() + wbytes,
                flatten_from(bufs@, i as int) == flat.skip(wbytes as int),
                bufs0 == old(bufs)@,
                flat == flatten_from(bufs0, from as int),
                wbytes <= flat.len(),
                i > from ==> bufs0[from as int]@.len() <= wbytes,
                from < len && i == from ==> wbytes > 0,
                (i > from || wbytes > 0) ==> (old(stream).state == SendState::Ready && old(
                    stream,
                ).stop_reason is None),
                (i == from && wbytes == 0) ==> *stream == *old(stream) && *conn == *old(conn),
                i == len || (bufs@[i as int]@.len() > 0 && (stream.spec_stream_credit() == 0
                    || conn.send_budget == 0)),
            decreases len - i,
        {
            if i >= len {
                proof {
                    lemma_flatten_from_congruence(bufs@, bufs0, i as int);
                }
                break ;
            }
            let ghost pre_bufs = bufs@;
            let clen = bufs[i].len();
            proof {
                assert(bufs@[i as int] == bufs0[i as int]);
                // one step of the flattened tail
                assert(flatten_from(bufs0, i as int) == bufs0[i as int]@ + flatten_from(
                    bufs0,
                    i + 1,
                ));
            }
            match stream.write(bufs[i].as_slice(), conn.send_budget) {
                Ok(n) => {
                    let p = stream.pending.len();
                    proof {
                        assert(wbytes + n <= p);
                        assert(flat.skip(wbytes as int).len() == clen + flatten_from(
                            bufs0,
                            i + 1,
                        ).len());
                        assert(wbytes + n <= flat.len());
                        assert(flat.take((wbytes + n) as int) =~= flat.take(wbytes as int)
                            + flat.skip(wbytes as int).take(n as int));
                        assert(flat.skip(wbytes as int).take(n as int) =~= bufs0[i as int]@.take(
                            n as int,
                        ));
                    }
                    conn.send_budget = conn.send_budget - n as u64;
                    if n == clen {
                        // the whole chunk went out; leave it empty and move on
                        proof {
                            assert(bufs0[i as int]@.take(n as int) =~= bufs0[i as int]@);
                            assert(flat.skip(wbytes as int).skip(clen as int) =~= flat.skip(
                                (wbytes + clen) as int,
                            ));
                            assert(flatten_from(bufs0, i + 1) =~= flat.skip(
                                (wbytes + clen) as int,
                            ));
                        }
                        bufs[i] = Vec::new();
                        wbytes = wbytes + n;
                        proof {
                            assert(stream.data@ =~= old(stream).data@ + flat.take(wbytes as int));
                        }
                        i = i + 1;
                    } else {
                        // credit ran out inside this chunk: keep its suffix
                        let mut rest: Vec<u8> = Vec::new();
                        let mut k: usize = n;
                        while k < clen
                            invariant
                                n <= k <= clen,
                                clen == bufs@[i as int]@.len(),
                                i < bufs@.len(),
                                bufs@ == pre_bufs,
                                rest@ == bufs@[i as int]@.subrange(n as int, k as int),
                            decreases clen - k,
                        {
                            rest.push(bufs[i][k]);
                            proof {
                                assert(rest@ =~= bufs@[i as int]@.subrange(n as int, k + 1));
                            }
                            k = k + 1;
                        }
                        proof {
                            assert(rest@ =~= bufs0[i as int]@.skip(n as int));
                        }
                        bufs[i] = rest;
                        wbytes = wbytes + n;
                        proof {
                            assert(stream.data@ =~= old(stream).data@ + flat.take(wbytes as int));
                            lemma_flatten_from_congruence(bufs@, bufs0, i + 1);
                            assert(flatten_from(bufs@, i as int) == bufs@[i as int]@
                                + flatten_from(bufs@, i + 1));
                            assert(bufs0[i as int]@.skip(n as int) + flatten_from(bufs0, i + 1)
                                =~= (bufs0[i as int]@ + flatten_from(bufs0, i + 1)).skip(n as int));
                            assert(flat.skip((wbytes - n) as int).skip(n as int) =~= flat.skip(
                                wbytes as int,
                            ));
                        }
                        break ;
                    }
                },
                Err(crate::streams::WriteError::Blocked) => {
                    if i == from {
                        // nothing was written at all: park the writer
                        conn.blocked_writers.push(self.stream.value());
                        proof {
                            assert(bufs@ =~= bufs0);
                        }
                        return PollStep::Pending;
                    }
                    proof {
                        lemma_flatten_from_congruence(bufs@, bufs0, i as int);
                    }
                    break ;
                },
                Err(crate::streams::WriteError::Stopped(code)) => {
                    proof {
                        assert(bufs@ =~= bufs0);
                    }
                    return PollStep::Ready(Err(WriteError::Stopped(code)));
                },
                Err(crate::streams::WriteError::UnknownStream) => {
                    proof {
                        assert(bufs@ =~= bufs0);
                    }
                    return PollStep::Ready(Err(WriteError::UnknownStream));
                },
            }
        }
        conn.needs_wake = true;
        let wchunks = i - from;
        proof {
            lemma_flatten_from_empty_prefix(bufs@, from as int, i as int);
            let credit0 = old(stream).spec_stream_credit();
            let budget0 = old(conn).send_budget as int;
            let limit = if credit0 <= budget0 {
                credit0
            } else {
                budget0
            };
            assert(stream.spec_stream_credit() == credit0 - wbytes);
            assert(wbytes <= credit0);
            assert(wbytes <= budget0);
            if i < len {
                assert(flatten_from(bufs@, i as int) == bufs@[i as int]@ + flatten_from(
                    bufs@,
                    i + 1,
                ));
                assert(flat.skip(wbytes as int).len() > 0);
                assert(wbytes < flat.len());
                assert(wbytes == limit);
            } else {
                assert(flatten_from(bufs@, i as int) =~= Seq::<u8>::empty());
                assert(flat.skip(wbytes as int).len() == 0);
                assert(wbytes == flat.len());
                assert(wbytes <= limit);
            }
        }
        PollStep::Ready(Ok(Written { bytes: wbytes, chunks: wchunks }))
    }

    /// Polls writing an entire row of chunks: the cursor `from` advances
    /// over chunks written in their entirety, the operation completes once
    /// every chunk has gone out, and the writer is parked while the rest
    /// must wait for credit. An exhausted cursor completes at once,
    /// touching nothing; errors leave everything unchanged.
    pub fn poll_write_all_chunks(
        &self,
        conn: &mut ConnState,
        stream: &mut SendStreamState,
        bufs: &mut Vec<Vec<u8>>,
        from: &mut usize,
    ) -> (r: PollStep<Result<(), WriteError>>)
        requires
            old(stream).wf(),
            *old(from) <= old(bufs)@.len(),
        ensures
            final(stream).wf(),
            *old(from) == old(bufs)@.len() ==> r == PollStep::Ready(Ok::<(), WriteError>(()))
                && *final(conn) == *old(conn) && *final(stream) == *old(stream) && final(bufs)@
                == old(bufs)@ && *final(from) == *old(from),
            (*old(from) < old(bufs)@.len() && self.spec_0rtt_rejected(*old(conn))) ==> r
                == PollStep::Ready(Err::<(), WriteError>(WriteError::ZeroRttRejected))
                && *final(conn) == *old(conn) && *final(stream) == *old(stream) && final(bufs)@
                == old(bufs)@ && *final(from) == *old(from),
            (*old(from) < old(bufs)@.len() && !self.spec_0rtt_rejected(*old(conn)) && old(
                conn,
            ).error is Some) ==> r == PollStep::Ready(Err::<(), WriteError>(
                WriteError::ConnectionClosed(old(conn).error->Some_0),
            )) && *final(conn) == *old(conn) && *final(stream) == *old(stream) && final(bufs)@
                == old(bufs)@ && *final(from) == *old(from),
            (*old(from) < old(bufs)@.len() && !self.spec_0rtt_rejected(*old(conn)) && old(
                conn,
            ).error is None) ==> {
                &&& (old(stream).state != SendState::Ready ==> r == PollStep::Ready(Err::<
                    (),
                    WriteError,
                >(WriteError::UnknownStream)) && *final(conn) == *old(conn) && *final(stream)
                    == *old(stream) && final(bufs)@ == old(bufs)@ && *final(from) == *old(from))
                &&& ((old(stream).state == SendState::Ready && old(stream).stop_reason is Some)
                    ==> r == PollStep::Ready(Err::<(), WriteError>(WriteError::Stopped(
                    old(stream).stop_reason->Some_0,
                ))) && *final(conn) == *old(conn) && *final(stream) == *old(stream) && final(bufs)@
                    == old(bufs)@ && *final(from) == *old(from))
                &&& ((old(stream).state == SendState::Ready && old(stream).stop_reason is None)
                    ==> {
                    let limit = if old(stream).spec_stream_credit() <= old(conn).send_budget {
                        old(stream).spec_stream_credit()
                    } else {
                        old(conn).send_budget as int
                    };
                    let flat = flatten_from(old(bufs)@, *old(from) as int);
                    let rem = flat.len() as int;
                    let w = if rem <= limit {
                        rem
                    } else {
                        limit
                    };
                    if old(bufs)@[*old(from) as int]@.len() > 0 && limit == 0 {
                        // nothing could be written: park the writer
                        &&& r == PollStep::<Result<(), WriteError>>::Pending
                        &&& *final(stream) == *old(stream)
                        &&& final(bufs)@ == old(bufs)@
                        &&& *final(from) == *old(from)
                        &&& final(conn).blocked_writers@ == old(conn).blocked_writers@ + seq![
                            self.spec_stream()@,
                        ]
                        &&& *final(conn) == (ConnState {
                            blocked_writers: final(conn).blocked_writers,
                            ..*old(conn)
                        })
                    } else {
                        &&& final(stream).data@ == old(stream).data@ + flat.take(w)
                        &&& *final(stream) == (SendStreamState {
                            data: final(stream).data,
                            pending: final(stream).pending,
                            ..*old(stream)
                        })
                        &&& *old(from) <= *final(from) <= old(bufs)@.len()
                        &&& flatten_from(final(bufs)@, *final(from) as int) == flat.skip(w)
                        &&& final(bufs)@.len() == old(bufs)@.len()
                        &&& final(conn).send_budget == old(conn).send_budget - w
                        &&& final(conn).needs_wake
                        &&& (w == rem ==> r == PollStep::Ready(Ok::<(), WriteError>(()))
                            && *final(from) == old(bufs)@.len() && *final(conn) == (ConnState {
                            send_budget: final(conn).send_budget,
                            needs_wake: true,
                            ..*old(conn)
                        }))
                        &&& (w < rem ==> {
                            &&& r == PollStep::<Result<(), WriteError>>::Pending
                            &&& *final(from) < old(bufs)@.len()
                            &&& final(bufs)@[*final(from) as int]@.len() > 0
                            &&& final(conn).blocked_writers@ == old(conn).blocked_writers@ + seq![
                                self.spec_stream()@,
                            ]
                            &&& *final(conn) == (ConnState {
                                send_budget: final(conn).send_budget,
                                needs_wake: true,
                                blocked_writers: final(conn).blocked_writers,
                                ..*old(conn)
                            })
                        })
                    }
                })
            },
    {
        let len = bufs.len();
        if *from == len {
            return PollStep::Ready(Ok(()));
        }
        let ghost f0 = *from as int;
        let ghost flat = flatten_from(bufs@, f0);
        match self.poll_write_chunks(conn, stream, bufs, *from) {
            PollStep::Pending => PollStep::Pending,
            PollStep::Ready(Err(e)) => PollStep::Ready(Err(e)),
            PollStep::Ready(Ok(written)) => {
                proof {
                    lemma_flatten_from_empty_prefix(bufs@, f0, f0 + written.chunks);
                }
                *from = *from + written.chunks;
                if *from == len {
                    proof {
                        assert(flatten_from(bufs@, *from as int) =~= Seq::<u8>::empty());
                        assert(flat.skip(written.bytes as int).len() == 0);
                    }
                    PollStep::Ready(Ok(()))
                } else {
                    // credit ran out with chunks left: park the writer
                    proof {
                        assert(flatten_from(bufs@, *from as int) == bufs@[*from as int]@
                            + flatten_from(bufs@, *from + 1));
                        assert(flat.skip(written.bytes as int).len() > 0);
                    }
                    conn.blocked_writers.push(self.stream.value());
                    PollStep::Pending
                }
            },
        }
    }

    /// What dropping the handle does: on a healthy connection, a handle
    /// that never asked to finish implicitly finishes the stream, and
    /// where the peer had already stopped it, resets the stream with the
    /// peer's code instead. On an ended connection, or where 0-RTT was
    /// rejected, the drop touches nothing.
    pub fn on_drop(&self, conn: &mut ConnState, stream: &mut SendStreamState)
        requires
            old(stream).wf(),
        ensures
            final(stream).wf(),
            (old(conn).error is Some || self.spec_0rtt_rejected(*old(conn))) ==> *final(conn)
                == *old(conn) && *final(stream) == *old(stream),
            (old(conn).error is None && !self.spec_0rtt_rejected(*old(conn))
                && self.spec_finishing()) ==> *final(conn) == *old(conn) && *final(stream) == *old(
                stream,
            ),
            (old(conn).error is None && !self.spec_0rtt_rejected(*old(conn)) && !self.spec_finishing())
                ==> {
                if old(stream).state == SendState::Ready && old(stream).stop_reason is None {
                    // implicit finish
                    &&& *final(stream) == (SendStreamState {
                        state: SendState::DataSent,
                        ..*old(stream)
                    })
                    &&& *final(conn) == (ConnState { needs_wake: true, ..*old(conn) })
                } else if old(stream).state == SendState::Ready && old(stream).stop_reason is Some {
                    // stopped by the peer: reset with the peer's code
                    &&& final(stream).state == SendState::ResetSent
                    &&& final(stream).data@ == old(stream).data@.take(old(stream).acked as int)
                    &&& *final(conn) == (ConnState { needs_wake: true, ..*old(conn) })
                } else {
                    // already finished or reset, which is fine
                    &&& *final(conn) == *old(conn)
                    &&& *final(stream) == *old(stream)
                }
            },
    {
        if conn.error.is_some() || (self.is_0rtt && conn.zero_rtt_rejected) {
            return ;
        }
        if self.finishing {
            return ;
        }
        match stream.finish() {
            Ok(()) => {
                conn.needs_wake = true;
            },
            Err(FinishError::Stopped(reason)) => {
                match stream.reset(reason) {
                    Ok(()) => {
                        conn.needs_wake = true;
                    },
                    Err(_) => {},
                }
            },
            // Already finished or reset, which is fine.
            Err(FinishError::UnknownStream) => {},
        }
    }
}

} // verus!
