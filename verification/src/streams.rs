//! The send half of one stream: the buffered bytes, the offsets that
//! account for them, the flow-control limit, and the send-direction state
//! machine. Data is never dropped until it is acknowledged or the stream is
//! reset, so a retransmitted range always carries the bytes originally
//! written at those offsets.

use crate::varint::{MAX_VARINT, VarInt};
use vstd::prelude::*;

verus! {

/// Errors from writing to a send stream.
#[derive(Debug, Clone, Copy, PartialEq, Eq, Structural)]
pub enum WriteError {
    /// No flow-control credit is available right now; transient, try again
    /// after the peer grants more.
    Blocked,
    /// The peer is no longer accepting data on this stream, with its
    /// application error code.
    Stopped(VarInt),
    /// The stream has already been finished or reset.
    UnknownStream,
}

/// Errors from finishing a send stream.
#[derive(Debug, Clone, Copy, PartialEq, Eq, Structural)]
pub enum FinishError {
    /// The peer is no longer accepting data on this stream, with its
    /// application error code.
    Stopped(VarInt),
    /// The stream has already been finished or reset.
    UnknownStream,
}

/// The stream has already been finished or reset.
#[derive(Debug, Clone, Copy, PartialEq, Eq, Structural)]
pub struct UnknownStream;

/// Send-direction states of a stream.
#[derive(Debug, Clone, Copy, PartialEq, Eq, Structural)]
pub enum SendState {
    /// Open for writing.
    Ready,
    /// The application finished the stream: no new data is accepted; what
    /// is buffered is delivered and retransmitted until acknowledged.
    DataSent,
    /// The peer acknowledged everything up to the FIN; terminal.
    DataRecvd,
    /// We sent RESET_STREAM and await its acknowledgement.
    ResetSent,
    /// The peer acknowledged the reset; terminal.
    ResetRecvd,
}

/// How much a chunked write consumed: a byte count, and how many chunks
/// were written in their entirety.
#[derive(Debug, Clone, Copy, PartialEq, Eq, Structural)]
pub struct Written {
    /// Bytes written, across all chunks.
    pub bytes: usize,
    /// Chunks written in their entirety.
    pub chunks: usize,
}

/// One chunk handed to the packetizer: a STREAM frame body.
#[derive(Debug)]
pub struct Transmit {
    /// Absolute stream offset of the first byte.
    pub offset: u64,
    /// The bytes, copied out of the unacknowledged buffer.
    pub data: Vec<u8>,
    /// Whether the chunk ends at the stream's final size.
    pub fin: bool,
}

/// The send half of one stream.
pub struct SendStreamState {
    /// Where the stream stands in its send-direction lifecycle.
    pub state: SendState,
    /// Every byte the application has written since the stream opened;
    /// a reset truncates it to the acknowledged prefix. Ghost history the
    /// contracts speak of.
    pub data: Ghost<Seq<u8>>,
    /// Bytes the peer has acknowledged: the prefix `[0, acked)` is done.
    pub acked: u64,
    /// Next offset to hand to the packetizer; rewound when loss is
    /// detected.
    pub sent: u64,
    /// The bytes written but not yet acknowledged: exactly the range
    /// `[acked, write_offset)` of the stream.
    pub pending: Vec<u8>,
    /// The peer's flow-control limit for this stream, as an absolute
    /// offset we must not write past.
    pub max_data: u64,
    /// Set when the peer sent STOP_SENDING, with its error code.
    pub stop_reason: Option<VarInt>,
    /// Whether a FIN has been handed to the packetizer since it last had
    /// to be retransmitted.
    pub fin_sent: bool,
    /// Transmit priority; streams with higher priority send first.
    pub priority: i32,
}

impl SendStreamState {
    /// Offset one past the last byte the application has written.
    pub open spec fn write_offset(self) -> int {
        self.acked + self.pending@.len()
    }

    /// The terminal states, in which the engine has dropped the stream and
    /// operations report `UnknownStream`.
    pub open spec fn is_gone(self) -> bool {
        self.state == SendState::DataRecvd || self.state == SendState::ResetRecvd
    }

    pub open spec fn wf(self) -> bool {
        &&& self.write_offset() <= self.max_data <= MAX_VARINT
        &&& self.acked <= self.sent <= self.write_offset()
        &&& self.data@.len() == self.write_offset()
        &&& self.data@.skip(self.acked as int) == self.pending@
        &&& (self.state == SendState::ResetSent || self.state == SendState::ResetRecvd
            || self.state == SendState::DataRecvd) ==> self.pending@.len() == 0
    }

    /// A fresh stream under the peer's initial flow-control limit.
    pub fn new(max_data: u64) -> (r: SendStreamState)
        requires
            max_data <= MAX_VARINT,
        ensures
            r.wf(),
            r.state == SendState::Ready,
            r.data@ =~= Seq::<u8>::empty(),
            r.acked == 0,
            r.sent == 0,
            r.max_data == max_data,
            r.stop_reason is None,
            r.priority == 0,
    {
        let r = SendStreamState {
            state: SendState::Ready,
            data: Ghost(Seq::empty()),
            acked: 0,
            sent: 0,
            pending: Vec::new(),
            max_data,
            stop_reason: None,
            fin_sent: false,
            priority: 0,
        };
        proof {
            assert(r.data@.skip(0) =~= r.pending@);
        }
        r
    }

    /// How many more bytes the peer currently lets this stream write,
    /// before any connection-level limit.
    pub open spec fn spec_stream_credit(self) -> int {
        self.max_data - self.write_offset()
    }

    /// Writes a prefix of `bytes`, as much as the stream's and the
    /// connection's flow-control credit admit. Fails with `UnknownStream`
    /// after a finish or reset, with `Stopped` once the peer asked us to
    /// stop, and with `Blocked`, a transient condition, where data is
    /// offered and no credit is available.
    pub fn write(&mut self, bytes: &[u8], connection_budget: u64) -> (r: Result<
        usize,
        WriteError,
    >)
        requires
            old(self).wf(),
        ensures
            final(self).wf(),
            old(self).state != SendState::Ready ==> r == Err::<usize, WriteError>(
                WriteError::UnknownStream,
            ) && *final(self) == *old(self),
            (old(self).state == SendState::Ready && old(self).stop_reason is Some) ==> r
                == Err::<usize, WriteError>(WriteError::Stopped(old(self).stop_reason->Some_0))
                && *final(self) == *old(self),
            old(self).state == SendState::Ready && old(self).stop_reason is None ==> {
                let limit = if old(self).spec_stream_credit() <= connection_budget {
                    old(self).spec_stream_credit()
                } else {
                    connection_budget as int
                };
                if bytes@.len() > 0 && limit == 0 {
                    r == Err::<usize, WriteError>(WriteError::Blocked) && *final(self) == *old(
                        self,
                    )
                } else {
                    let n = if bytes@.len() <= limit {
                        bytes@.len() as int
                    } else {
                        limit
                    };
                    &&& r == Ok::<usize, WriteError>(n as usize)
                    &&& final(self).data@ == old(self).data@ + bytes@.take(n)
                    &&& final(self).pending@ == old(self).pending@ + bytes@.take(n)
                    &&& final(self).write_offset() == old(self).write_offset() + n
                    &&& *final(self) == (SendStreamState {
                        data: final(self).data,
                        pending: final(self).pending,
                        ..*old(self)
                    })
                }
            },
            final(self).write_offset() >= old(self).write_offset(),
    {
        if !matches!(self.state, SendState::Ready) {
            return Err(WriteError::UnknownStream);
        }
        if let Some(code) = self.stop_reason {
            return Err(WriteError::Stopped(code));
        }
        let buffered = self.pending.len() as u64;
        let stream_credit = self.max_data - self.acked - buffered;
        let limit = if stream_credit <= connection_budget {
            stream_credit
        } else {
            connection_budget
        };
        if bytes.len() > 0 && limit == 0 {
            return Err(WriteError::Blocked);
        }
        let n: usize = if (bytes.len() as u64) <= limit {
            bytes.len()
        } else {
            limit as usize
        };
        let ghost pending0 = self.pending@;
        let mut i: usize = 0;
        while i < n
            invariant
                i <= n,
                n <= bytes@.len(),
                self.pending@ == pending0 + bytes@.take(i as int),
                *self == (SendStreamState {
                    pending: self.pending,
                    ..*old(self)
                }),
            decreases n - i,
        {
            self.pending.push(bytes[i]);
            proof {
                assert(self.pending@ =~= pending0 + bytes@.take(i + 1));
            }
            i = i + 1;
        }
        proof {
            self.data@ = self.data@ + bytes@.take(n as int);
        }
        proof {
            assert(self.data@.skip(self.acked as int) =~= self.pending@);
        }
        Ok(n)
    }

    /// Marks the stream finished: the FIN sits after everything written so
    /// far, and no new data is accepted. Fails with `UnknownStream` after
    /// an earlier finish or reset, and with `Stopped` once the peer asked
    /// us to stop.
    pub fn finish(&mut self) -> (r: Result<(), FinishError>)
        requires
            old(self).wf(),
        ensures
            final(self).wf(),
            old(self).state != SendState::Ready ==> r == Err::<(), FinishError>(
                FinishError::UnknownStream,
            ) && *final(self) == *old(self),
            (old(self).state == SendState::Ready && old(self).stop_reason is Some) ==> r
                == Err::<(), FinishError>(FinishError::Stopped(old(self).stop_reason->Some_0))
                && *final(self) == *old(self),
            old(self).state == SendState::Ready && old(self).stop_reason is None ==> r == Ok::<
                (),
                FinishError,
            >(()) && *final(self) == (SendStreamState { state: SendState::DataSent, ..*old(self) }),
    {
        if !matches!(self.state, SendState::Ready) {
            return Err(FinishError::UnknownStream);
        }
        if let Some(code) = self.stop_reason {
            return Err(FinishError::Stopped(code));
        }
        self.state = SendState::DataSent;
        Ok(())
    }

    /// Closes the send stream immediately: buffered data is dropped and
    /// will not be retransmitted. Fails with `UnknownStream` where the
    /// stream was already reset or fully acknowledged.
    pub fn reset(&mut self, _error_code: VarInt) -> (r: Result<(), UnknownStream>)
        requires
            old(self).wf(),
        ensures
            final(self).wf(),
            (old(self).state == SendState::Ready || old(self).state == SendState::DataSent) <==> r
                is Ok,
            r is Ok ==> {
                &&& final(self).state == SendState::ResetSent
                &&& final(self).data@ == old(self).data@.take(old(self).acked as int)
                &&& final(self).pending@.len() == 0
                &&& final(self).acked == old(self).acked
                &&& final(self).sent == old(self).acked
                &&& final(self).max_data == old(self).max_data
                &&& final(self).stop_reason == old(self).stop_reason
                &&& final(self).priority == old(self).priority
            },
            r is Err ==> *final(self) == *old(self),
    {
        match self.state {
            SendState::Ready | SendState::DataSent => {
                self.state = SendState::ResetSent;
                self.pending = Vec::new();
                self.sent = self.acked;
                proof {
                    self.data@ = self.data@.take(self.acked as int);
                }
                proof {
                    assert(self.data@.skip(self.acked as int) =~= self.pending@);
                }
                Ok(())
            },
            _ => Err(UnknownStream),
        }
    }

    /// Sets the transmit priority. Fails with `UnknownStream` once the
    /// stream has reached a terminal state and been dropped by the engine.
    pub fn set_priority(&mut self, priority: i32) -> (r: Result<(), UnknownStream>)
        requires
            old(self).wf(),
        ensures
            final(self).wf(),
            !old(self).is_gone() <==> r is Ok,
            r is Ok ==> *final(self) == (SendStreamState { priority, ..*old(self) }),
            r is Err ==> *final(self) == *old(self),
    {
        if matches!(self.state, SendState::DataRecvd | SendState::ResetRecvd) {
            return Err(UnknownStream);
        }
        self.priority = priority;
        Ok(())
    }

    /// The transmit priority. Fails with `UnknownStream` once the stream
    /// has reached a terminal state.
    pub fn priority(&self) -> (r: Result<i32, UnknownStream>)
        requires
            self.wf(),
        ensures
            !self.is_gone() <==> r is Ok,
            r is Ok ==> r == Ok::<i32, UnknownStream>(self.priority),
    {
        if matches!(self.state, SendState::DataRecvd | SendState::ResetRecvd) {
            return Err(UnknownStream);
        }
        Ok(self.priority)
    }

    /// Whether the peer has asked us to stop sending, with its error code;
    /// `None` while it has not. Fails with `UnknownStream` once the stream
    /// has reached a terminal state.
    pub fn stopped(&self) -> (r: Result<Option<VarInt>, UnknownStream>)
        requires
            self.wf(),
        ensures
            !self.is_gone() <==> r is Ok,
            r is Ok ==> r == Ok::<Option<VarInt>, UnknownStream>(self.stop_reason),
    {
        if matches!(self.state, SendState::DataRecvd | SendState::ResetRecvd) {
            return Err(UnknownStream);
        }
        Ok(self.stop_reason)
    }

    /// Records a STOP_SENDING frame from the peer: later writes and
    /// finishes report `Stopped` with this code. Ignored once the stream
    /// is reset or done.
    pub fn on_stop_sending(&mut self, error_code: VarInt)
        requires
            old(self).wf(),
        ensures
            final(self).wf(),
            (old(self).state == SendState::Ready || old(self).state == SendState::DataSent)
                ==> *final(self) == (SendStreamState {
                stop_reason: Some(error_code),
                ..*old(self)
            }),
            !(old(self).state == SendState::Ready || old(self).state == SendState::DataSent)
                ==> *final(self) == *old(self),
    {
        if matches!(self.state, SendState::Ready | SendState::DataSent) {
            self.stop_reason = Some(error_code);
        }
    }

    /// Raises the stream's flow-control limit to what the peer last
    /// advertised; regressions are ignored, so the limit never shrinks.
    pub fn set_max_data(&mut self, max: u64)
        requires
            old(self).wf(),
            max <= MAX_VARINT,
        ensures
            final(self).wf(),
            final(self).max_data == (if max > old(self).max_data {
                max as int
            } else {
                old(self).max_data as int
            }),
            *final(self) == (SendStreamState { max_data: final(self).max_data, ..*old(self) }),
            final(self).max_data >= old(self).max_data,
    {
        if max > self.max_data {
            self.max_data = max;
        }
    }

    /// Acknowledges everything up to offset `up_to`: the buffer drops the
    /// acknowledged prefix, and a finished stream whose FIN is covered
    /// becomes `DataRecvd`. Offsets at or below the current mark change
    /// nothing.
    pub fn on_ack(&mut self, up_to: u64) -> (r: ())
        requires
            old(self).wf(),
            up_to <= old(self).write_offset(),
        ensures
            final(self).wf(),
            up_to <= old(self).acked ==> *final(self) == *old(self),
            up_to > old(self).acked ==> {
                &&& final(self).acked == up_to
                &&& final(self).data@ == old(self).data@
                &&& final(self).pending@ == old(self).pending@.skip(up_to - old(self).acked)
                &&& final(self).sent == (if old(self).sent >= up_to {
                    old(self).sent as int
                } else {
                    up_to as int
                })
                &&& final(self).write_offset() == old(self).write_offset()
                &&& final(self).max_data == old(self).max_data
                &&& final(self).stop_reason == old(self).stop_reason
                &&& final(self).priority == old(self).priority
                &&& final(self).state == (if old(self).state == SendState::DataSent && up_to
                    == old(self).write_offset() {
                    SendState::DataRecvd
                } else {
                    old(self).state
                })
            },
    {
        if up_to <= self.acked {
            return ;
        }
        let k = (up_to - self.acked) as usize;
        let mut rest: Vec<u8> = Vec::new();
        let mut i: usize = k;
        let ghost pending0 = self.pending@;
        while i < self.pending.len()
            invariant
                k <= i <= self.pending@.len(),
                self.pending@ == pending0,
                rest@ == pending0.subrange(k as int, i as int),
            decreases self.pending@.len() - i,
        {
            rest.push(self.pending[i]);
            proof {
                assert(rest@ =~= pending0.subrange(k as int, i + 1));
            }
            i = i + 1;
        }
        proof {
            assert(rest@ =~= pending0.skip(k as int));
        }
        self.pending = rest;
        self.acked = up_to;
        if self.sent < up_to {
            self.sent = up_to;
        }
        if matches!(self.state, SendState::DataSent) && self.pending.len() == 0 {
            self.state = SendState::DataRecvd;
        }
        proof {
            assert(self.data@.skip(self.acked as int) =~= self.pending@);
        }
    }

    /// Records that the reset we sent was acknowledged; the stream is then
    /// terminal.
    pub fn on_reset_acked(&mut self)
        requires
            old(self).wf(),
        ensures
            final(self).wf(),
            old(self).state == SendState::ResetSent ==> *final(self) == (SendStreamState {
                state: SendState::ResetRecvd,
                ..*old(self)
            }),
            old(self).state != SendState::ResetSent ==> *final(self) == *old(self),
    {
        if matches!(self.state, SendState::ResetSent) {
            self.state = SendState::ResetRecvd;
        }
    }

    /// Whether the stream has something for the packetizer: unsent bytes,
    /// or a FIN not yet handed out.
    pub open spec fn spec_has_pending_transmit(self) -> bool {
        &&& (self.state == SendState::Ready || self.state == SendState::DataSent)
        &&& (self.sent < self.write_offset() || (self.state == SendState::DataSent
            && !self.fin_sent))
    }

    /// Hands the packetizer the next chunk, at most `max_len` bytes from
    /// the first unsent offset. The chunk carries exactly the bytes the
    /// application wrote at those offsets, so a chunk cut after a loss
    /// rewind repeats the original data. The FIN flag rides on the chunk
    /// that reaches the stream's final size.
    pub fn next_chunk(&mut self, max_len: usize) -> (r: Option<Transmit>)
        requires
            old(self).wf(),
            max_len > 0,
        ensures
            final(self).wf(),
            r is Some <==> old(self).spec_has_pending_transmit(),
            r is None ==> *final(self) == *old(self),
            r matches Some(t) ==> {
                &&& t.offset == old(self).sent
                &&& t.data@.len() <= max_len
                &&& t.data@ == old(self).data@.subrange(
                    t.offset as int,
                    t.offset + t.data@.len(),
                )
                &&& t.fin == (old(self).state == SendState::DataSent && t.offset + t.data@.len()
                    == old(self).write_offset())
                &&& final(self).sent == t.offset + t.data@.len()
                &&& final(self).fin_sent == (old(self).fin_sent || t.fin)
                &&& *final(self) == (SendStreamState {
                    sent: final(self).sent,
                    fin_sent: final(self).fin_sent,
                    ..*old(self)
                })
            },
    {
        if !matches!(self.state, SendState::Ready | SendState::DataSent) {
            return None;
        }
        let buffered = self.pending.len() as u64;
        let unsent = self.acked + buffered - self.sent;
        let fin_due = matches!(self.state, SendState::DataSent) && !self.fin_sent;
        if unsent == 0 && !fin_due {
            return None;
        }
        let n: usize = if unsent <= max_len as u64 {
            unsent as usize
        } else {
            max_len
        };
        let start = (self.sent - self.acked) as usize;
        let plen = self.pending.len();
        let mut data: Vec<u8> = Vec::new();
        let mut i: usize = 0;
        while i < n
            invariant
                i <= n,
                start + n <= plen,
                plen == self.pending@.len(),
                data@ == self.pending@.subrange(start as int, start + i),
                *self == *old(self),
            decreases n - i,
        {
            data.push(self.pending[start + i]);
            proof {
                assert(data@ =~= self.pending@.subrange(start as int, start + i + 1));
            }
            i = i + 1;
        }
        let offset = self.sent;
        self.sent = self.sent + n as u64;
        let fin = matches!(self.state, SendState::DataSent) && self.sent == self.acked + buffered;
        if fin {
            self.fin_sent = true;
        }
        proof {
            assert(self.data@.skip(self.acked as int) == self.pending@);
            assert(data@ =~= self.data@.subrange(offset as int, offset + n));
        }
        Some(Transmit { offset, data, fin })
    }

    /// Records that data from offset `start` on was declared lost: the
    /// transmit mark rewinds so those bytes (still held, because nothing
    /// is dropped before acknowledgement) go out again, and the FIN is
    /// marked for retransmission.
    pub fn on_loss(&mut self, start: u64)
        requires
            old(self).wf(),
        ensures
            final(self).wf(),
            final(self).sent == (if start <= old(self).acked {
                old(self).acked as int
            } else if start <= old(self).sent {
                start as int
            } else {
                old(self).sent as int
            }),
            *final(self) == (SendStreamState {
                sent: final(self).sent,
                fin_sent: false,
                ..*old(self)
            }),
            final(self).sent <= old(self).sent,
    {
        if start <= self.acked {
            self.sent = self.acked;
        } else if start <= self.sent {
            self.sent = start;
        }
        self.fin_sent = false;
    }
}

/// The unacknowledged bytes of a stream are exactly the range from the
/// acknowledged mark to the write offset: their count equals
/// `write_offset - acked`, and their contents are the written bytes of
/// that range.
pub proof fn lemma_unacked_bytes(s: SendStreamState)
    requires
        s.wf(),
    ensures
        s.pending@.len() == s.write_offset() - s.acked,
        s.pending@ == s.data@.skip(s.acked as int),
{
}

/// A retransmission carries the original data: whatever range of offsets a
/// chunk covers, its bytes are the ones the application wrote there, so a
/// receiver that assembles chunks of either a first transmission or any
/// later one sees one consistent stream.
pub proof fn lemma_retransmit_consistent(s: SendStreamState, t: Transmit)
    requires
        s.wf(),
        t.offset + t.data@.len() <= s.data@.len(),
        t.data@ == s.data@.subrange(t.offset as int, t.offset + t.data@.len()),
    ensures
        forall|i: int|
            0 <= i < t.data@.len() ==> t.data@[i] == s.data@[t.offset + i],
{
}

} // verus!
