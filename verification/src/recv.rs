//! The receive half of one stream: reassembly of STREAM frames indexed by
//! absolute offset, in-order delivery to the application, the stream's
//! flow-control bound, and the final-size bookkeeping around the FIN. The
//! assembled bytes depend only on which frames arrived, never on the order
//! they arrived in.

use crate::streams::{SendState, SendStreamState};
use crate::varint::VarInt;
use vstd::prelude::*;

verus! {

/// Receive-direction states of a stream.
#[derive(Debug, Clone, Copy, PartialEq, Eq, Structural)]
pub enum RecvState {
    /// Receiving data; the final size is still unknown.
    Recv,
    /// The FIN arrived, so the final size is known, but bytes are missing.
    SizeKnown,
    /// Every byte up to the final size has arrived.
    DataRecvd,
    /// The application has read everything up to the final size; terminal.
    DataRead,
    /// The peer reset the stream.
    ResetRecvd,
    /// The application has seen the reset; terminal.
    ResetRead,
}

/// Errors a STREAM frame can provoke on receive; both end the connection.
#[derive(Debug, Clone, Copy, PartialEq, Eq, Structural)]
pub enum RecvFrameError {
    /// The peer wrote past the credit we advertised: FLOW_CONTROL_ERROR.
    FlowControl,
    /// The peer contradicted the stream's final size: FINAL_SIZE_ERROR.
    FinalSize,
}

/// What one read from the stream yields.
#[derive(Debug, Clone, PartialEq, Eq)]
pub enum ReadOutcome {
    /// The next bytes of the stream, in order.
    Data(Vec<u8>),
    /// The stream ended cleanly at its final size.
    Finished,
    /// The peer reset the stream, with its error code.
    Reset(VarInt),
    /// No data is ready; transient, try again after more frames arrive.
    Blocked,
}

/// The reassembly buffer after recording `data` at `offset`: the buffer
/// grows as far as the frame reaches, the frame's bytes land at their
/// offsets, and every other position keeps what it had.
pub open spec fn spec_insert(buf: Seq<Option<u8>>, offset: int, data: Seq<u8>) -> Seq<
    Option<u8>,
> {
    let new_len = if buf.len() >= offset + data.len() {
        buf.len() as int
    } else {
        offset + data.len()
    };
    Seq::new(
        new_len as nat,
        |i: int|
            if offset <= i < offset + data.len() {
                Some(data[i - offset])
            } else if i < buf.len() {
                buf[i]
            } else {
                None
            },
    )
}

/// Every byte the buffer holds agrees with the stream `s`.
pub open spec fn buffer_agrees_with(buf: Seq<Option<u8>>, s: Seq<u8>) -> bool {
    forall|i: int|
        0 <= i < buf.len() && buf[i] is Some ==> i < s.len() && buf[i] == Some(s[i])
}

/// The receive half of one stream.
#[derive(Debug, Clone)]
pub struct RecvStreamState {
    /// Reassembly indexed by absolute stream offset: position `i` holds
    /// the byte at offset `i` once it has arrived.
    pub buffer: Vec<Option<u8>>,
    /// Offset of the next byte the application will read; everything
    /// below it has arrived and been delivered in order.
    pub read_pos: usize,
    /// The stream's final size, known once a FIN arrived.
    pub final_size: Option<usize>,
    /// Set once the peer reset the stream, with its error code.
    pub reset_code: Option<VarInt>,
    /// Whether the application has seen the reset.
    pub reset_read: bool,
    /// The credit we advertised for this stream: no frame may reach past
    /// this offset.
    pub max_data: usize,
}

impl RecvStreamState {
    /// The byte received at offset `i`, if it has arrived.
    pub open spec fn spec_byte_at(self, i: int) -> Option<u8> {
        if 0 <= i < self.buffer@.len() {
            self.buffer@[i]
        } else {
            None
        }
    }

    /// Whether every byte below the final size has arrived.
    pub open spec fn spec_all_received(self) -> bool {
        match self.final_size {
            Some(n) => forall|i: int| 0 <= i < n ==> self.spec_byte_at(i) is Some,
            None => false,
        }
    }

    pub open spec fn wf(self) -> bool {
        &&& self.read_pos <= self.buffer@.len()
        &&& forall|i: int| 0 <= i < self.read_pos ==> self.buffer@[i] is Some
        &&& (self.final_size matches Some(n) ==> self.read_pos <= n && self.buffer@.len() <= n)
        &&& self.buffer@.len() <= self.max_data
        &&& (self.reset_read ==> self.reset_code is Some)
    }

    /// A fresh stream under the locally advertised flow-control window.
    pub fn new(max_data: usize) -> (r: RecvStreamState)
        ensures
            r.wf(),
            r.buffer@.len() == 0,
            r.read_pos == 0,
            r.final_size is None,
            r.reset_code is None,
            r.max_data == max_data,
    {
        RecvStreamState {
            buffer: Vec::new(),
            read_pos: 0,
            final_size: None,
            reset_code: None,
            reset_read: false,
            max_data,
        }
    }

    /// Where the stream stands in its receive-direction lifecycle.
    pub open spec fn spec_state(self) -> RecvState {
        if self.reset_code is Some {
            if self.reset_read {
                RecvState::ResetRead
            } else {
                RecvState::ResetRecvd
            }
        } else {
            match self.final_size {
                Some(n) => if self.read_pos == n {
                    RecvState::DataRead
                } else if self.spec_all_received() {
                    RecvState::DataRecvd
                } else {
                    RecvState::SizeKnown
                },
                None => RecvState::Recv,
            }
        }
    }

    /// Records a STREAM frame. The frame's bytes land at their offsets and
    /// every other received byte stays, so what the buffer ends up holding
    /// does not depend on the order frames arrive in. Fails with
    /// `FlowControl` exactly where the frame reaches past the advertised
    /// credit, and with `FinalSize` exactly where it contradicts a known
    /// final size; after a reset the frame is discarded. Errors and
    /// discards leave everything unchanged.
    pub fn on_stream_frame(&mut self, offset: usize, data: &[u8], fin: bool) -> (r: Result<
        (),
        RecvFrameError,
    >)
        requires
            old(self).wf(),
        ensures
            final(self).wf(),
            old(self).reset_code is Some ==> r is Ok && *final(self) == *old(self),
            old(self).reset_code is None ==> {
                let end = offset + data@.len();
                if end > old(self).max_data {
                    r == Err::<(), RecvFrameError>(RecvFrameError::FlowControl) && *final(self)
                        == *old(self)
                } else if (match old(self).final_size {
                    Some(n) => end > n || (fin && end != n),
                    None => fin && end < old(self).buffer@.len(),
                }) {
                    r == Err::<(), RecvFrameError>(RecvFrameError::FinalSize) && *final(self)
                        == *old(self)
                } else {
                    &&& r is Ok
                    &&& final(self).buffer@ == spec_insert(old(self).buffer@, offset as int, data@)
                    &&& final(self).final_size == (if fin {
                        Some(end as usize)
                    } else {
                        old(self).final_size
                    })
                    &&& final(self).read_pos == old(self).read_pos
                    &&& final(self).reset_code == old(self).reset_code
                    &&& final(self).reset_read == old(self).reset_read
                    &&& final(self).max_data == old(self).max_data
                }
            },
    {
        if self.reset_code.is_some() {
            return Ok(());
        }
        if offset > self.max_data || data.len() > self.max_data - offset {
            return Err(RecvFrameError::FlowControl);
        }
        let end = offset + data.len();
        match self.final_size {
            Some(n) => {
                if end > n || (fin && end != n) {
                    return Err(RecvFrameError::FinalSize);
                }
            },
            None => {
                if fin && end < self.buffer.len() {
                    return Err(RecvFrameError::FinalSize);
                }
            },
        }
        let ghost buf0 = self.buffer@;
        if self.buffer.len() < end {
            proof {
                assert(self.buffer@ =~= buf0 + Seq::new(0, |i: int| None::<u8>));
            }
            while self.buffer.len() < end
                invariant
                    buf0.len() <= self.buffer@.len() <= end,
                    end <= self.max_data,
                    self.buffer@ == buf0 + Seq::new(
                        (self.buffer@.len() - buf0.len()) as nat,
                        |i: int| None::<u8>,
                    ),
                    *self == (RecvStreamState { buffer: self.buffer, ..*old(self) }),
                decreases end - self.buffer@.len(),
            {
                self.buffer.push(None);
                proof {
                    assert(self.buffer@ =~= buf0 + Seq::new(
                        (self.buffer@.len() - buf0.len()) as nat,
                        |i: int| None::<u8>,
                    ));
                }
            }
        }
        let blen = self.buffer.len();
        let mut k: usize = 0;
        let ghost grown = self.buffer@;
        proof {
            assert(forall|i: int| 0 <= i < buf0.len() ==> grown[i] == buf0[i]);
            assert(forall|i: int| buf0.len() <= i < grown.len() ==> grown[i] is None);
        }
        while k < data.len()
            invariant
                k <= data@.len(),
                offset + data@.len() <= blen,
                blen == self.buffer@.len(),
                buf0 == old(self).buffer@,
                self.buffer@.len() == grown.len(),
                grown.len() == (if buf0.len() >= offset + data@.len() {
                    buf0.len() as int
                } else {
                    offset + data@.len()
                }),
                forall|i: int| 0 <= i < buf0.len() ==> grown[i] == buf0[i],
                forall|i: int| buf0.len() <= i < grown.len() ==> grown[i] is None,
                forall|i: int|
                    0 <= i < self.buffer@.len() && !(offset <= i < offset + k) ==> self.buffer@[i]
                        == grown[i],
                forall|i: int|
                    offset <= i < offset + k ==> self.buffer@[i] == Some(data@[i - offset]),
                *self == (RecvStreamState { buffer: self.buffer, ..*old(self) }),
            decreases data@.len() - k,
        {
            self.buffer[offset + k] = Some(data[k]);
            k = k + 1;
        }
        if fin {
            self.final_size = Some(end);
        }
        proof {
            let ins = spec_insert(buf0, offset as int, data@);
            assert(self.buffer@.len() == ins.len());
            assert forall|i: int| 0 <= i < ins.len() implies self.buffer@[i] == ins[i] by {
                if offset <= i < offset + data@.len() {
                } else if i < buf0.len() {
                    assert(self.buffer@[i] == grown[i]);
                } else {
                    assert(self.buffer@[i] == grown[i]);
                }
            }
            assert(self.buffer@ =~= ins);
        }
        Ok(())
    }

    /// Records a RESET_STREAM from the peer: pending data is discarded for
    /// the application and reads yield the peer's code. Fails with
    /// `FinalSize` exactly where the reset contradicts a known final size;
    /// a second reset is ignored.
    pub fn on_reset(&mut self, error_code: VarInt, reported_final_size: usize) -> (r: Result<
        (),
        RecvFrameError,
    >)
        requires
            old(self).wf(),
        ensures
            final(self).wf(),
            old(self).reset_code is Some ==> r is Ok && *final(self) == *old(self),
            old(self).reset_code is None ==> {
                if (match old(self).final_size {
                    Some(n) => reported_final_size != n,
                    None => false,
                }) || reported_final_size < old(self).buffer@.len() {
                    r == Err::<(), RecvFrameError>(RecvFrameError::FinalSize) && *final(self)
                        == *old(self)
                } else {
                    r is Ok && *final(self) == (RecvStreamState {
                        reset_code: Some(error_code),
                        final_size: Some(reported_final_size),
                        ..*old(self)
                    })
                }
            },
    {
        if self.reset_code.is_some() {
            return Ok(());
        }
        if let Some(n) = self.final_size {
            if reported_final_size != n {
                return Err(RecvFrameError::FinalSize);
            }
        }
        if reported_final_size < self.buffer.len() {
            return Err(RecvFrameError::FinalSize);
        }
        self.final_size = Some(reported_final_size);
        self.reset_code = Some(error_code);
        Ok(())
    }

    /// Reads the next bytes of the stream, in order: up to `max` bytes
    /// from the read position, exactly as far as contiguous data has
    /// arrived. Yields `Finished` at the final size, `Reset` once the peer
    /// reset the stream, and `Blocked`, a transient condition, while the
    /// next byte has not arrived.
    pub fn read(&mut self, max: usize) -> (r: ReadOutcome)
        requires
            old(self).wf(),
            max > 0,
        ensures
            final(self).wf(),
            old(self).reset_code matches Some(c) ==> r == ReadOutcome::Reset(c) && *final(self)
                == (RecvStreamState { reset_read: true, ..*old(self) }),
            (old(self).reset_code is None && old(self).final_size == Some(old(self).read_pos))
                ==> r == ReadOutcome::Finished && *final(self) == *old(self),
            (old(self).reset_code is None && old(self).final_size != Some(old(self).read_pos)
                && old(self).spec_byte_at(old(self).read_pos as int) is None) ==> r
                == ReadOutcome::Blocked && *final(self) == *old(self),
            (old(self).reset_code is None && old(self).final_size != Some(old(self).read_pos)
                && old(self).spec_byte_at(old(self).read_pos as int) is Some) ==> {
                &&& r matches ReadOutcome::Data(v)
                &&& 0 < v@.len() <= max
                &&& (forall|k: int|
                    0 <= k < v@.len() ==> Some(v@[k]) == old(self).spec_byte_at(
                        old(self).read_pos + k,
                    ))
                &&& final(self).read_pos == old(self).read_pos + v@.len()
                &&& *final(self) == (RecvStreamState {
                    read_pos: final(self).read_pos,
                    ..*old(self)
                })
                &&& (v@.len() < max ==> old(self).spec_byte_at(old(self).read_pos + v@.len())
                    is None)
            },
    {
        if let Some(code) = self.reset_code {
            self.reset_read = true;
            return ReadOutcome::Reset(code);
        }
        if let Some(n) = self.final_size {
            if self.read_pos == n {
                return ReadOutcome::Finished;
            }
        }
        let mut v: Vec<u8> = Vec::new();
        loop
            invariant_except_break
                self.wf(),
                *self == *old(self),
                max > 0,
                v@.len() <= max,
                v@.len() == 0 || self.read_pos + v@.len() <= self.buffer@.len(),
                forall|k: int|
                    0 <= k < v@.len() ==> Some(v@[k]) == self.spec_byte_at(self.read_pos + k),
            ensures
                *self == *old(self),
                v@.len() <= max,
                v@.len() == 0 || self.read_pos + v@.len() <= self.buffer@.len(),
                forall|k: int|
                    0 <= k < v@.len() ==> Some(v@[k]) == self.spec_byte_at(self.read_pos + k),
                v@.len() == max || self.spec_byte_at(self.read_pos + v@.len()) is None,
            decreases max - v@.len(),
        {
            if v.len() == max {
                break ;
            }
            let pos = self.read_pos + v.len();
            if pos >= self.buffer.len() {
                break ;
            }
            match self.buffer[pos] {
                Some(b) => {
                    v.push(b);
                },
                None => {
                    break ;
                },
            }
        }
        if v.len() == 0 {
            return ReadOutcome::Blocked;
        }
        let n = v.len();
        proof {
            assert forall|i: int|
                self.read_pos <= i < self.read_pos + n implies self.buffer@[i] is Some by {
                let k = i - self.read_pos;
                assert(Some(v@[k]) == self.spec_byte_at(self.read_pos + k));
            }
        }
        self.read_pos = self.read_pos + n;
        ReadOutcome::Data(v)
    }
}

/// Reordering frames cannot change the assembled stream: recording a frame
/// whose bytes come from the stream `s` keeps every received byte in
/// agreement with `s`, whatever was recorded before or arrives after, so
/// any arrival order of such frames leaves the buffer agreeing with `s`.
pub proof fn lemma_reordering_immaterial(
    buf: Seq<Option<u8>>,
    offset: int,
    data: Seq<u8>,
    s: Seq<u8>,
)
    requires
        buffer_agrees_with(buf, s),
        0 <= offset,
        offset + data.len() <= s.len(),
        data == s.subrange(offset, offset + data.len() as int),
    ensures
        buffer_agrees_with(spec_insert(buf, offset, data), s),
{
    let out = spec_insert(buf, offset, data);
    assert forall|i: int| 0 <= i < out.len() && out[i] is Some implies i < s.len() && out[i]
        == Some(s[i]) by {
        if offset <= i < offset + data.len() {
            assert(data[i - offset] == s[i]);
        }
    }
}

/// A well-behaved peer reads exactly what was written: once frames
/// covering every offset below the final size have arrived, each in
/// agreement with the stream `s`, every byte of the stream is held at its
/// offset, and in-order reads yield `s` and then the end of the stream.
pub proof fn lemma_complete_stream_delivered(st: RecvStreamState, s: Seq<u8>)
    requires
        st.wf(),
        st.reset_code is None,
        buffer_agrees_with(st.buffer@, s),
        st.final_size == Some(s.len() as usize),
        s.len() <= usize::MAX,
        st.spec_all_received(),
    ensures
        forall|i: int| 0 <= i < s.len() ==> st.spec_byte_at(i) == Some(s[i]),
        st.spec_state() == (if st.read_pos == s.len() {
            RecvState::DataRead
        } else {
            RecvState::DataRecvd
        }),
{
    assert forall|i: int| 0 <= i < s.len() implies st.spec_byte_at(i) == Some(s[i]) by {
        assert(st.spec_byte_at(i) is Some);
    }
}


/// What was written is what is read: a finished send stream holds the
/// whole stream it accepted, every frame it ever emitted agrees with that
/// stream, and a receiver that has collected frames covering all of it, in
/// any order, holds exactly those bytes and then the end of the stream.
pub proof fn lemma_writes_delivered(sender: SendStreamState, st: RecvStreamState)
    requires
        sender.wf(),
        sender.state == SendState::DataSent,
        st.wf(),
        st.reset_code is None,
        buffer_agrees_with(st.buffer@, sender.data@),
        st.final_size == Some(sender.data@.len() as usize),
        sender.data@.len() <= usize::MAX,
        st.spec_all_received(),
    ensures
        forall|i: int| 0 <= i < sender.data@.len() ==> st.spec_byte_at(i) == Some(sender.data@[i]),
        st.spec_state() == (if st.read_pos == sender.data@.len() {
            RecvState::DataRead
        } else {
            RecvState::DataRecvd
        }),
{
    lemma_complete_stream_delivered(st, sender.data@);
}

} // verus!
