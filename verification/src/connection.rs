//! The connection's lifecycle and timers: handshake progression, local and
//! peer-initiated closure, the drain period, and the single wakeup instant
//! derived from every armed timer. Once the connection is closing, draining
//! or drained, no STREAM or ACK frame is ever emitted again.

use crate::send_stream::ConnectionError;
use crate::streams::{SendState, SendStreamState, Transmit};
use vstd::prelude::*;

verus! {

/// Lifecycle phases of a connection.
#[derive(Debug, Clone, Copy, PartialEq, Eq, Structural)]
pub enum ConnectionPhase {
    /// The handshake has not completed.
    Handshaking,
    /// The handshake completed and data flows.
    Established,
    /// We closed, or hit a fatal error: a CONNECTION_CLOSE is retransmitted
    /// on any received packet until the drain period ends.
    Closing,
    /// The peer closed: nothing is sent but at most one echoed close.
    Draining,
    /// The drain period ended; the connection is gone. Terminal.
    Drained,
}

/// The lifecycle core of one connection.
#[derive(Debug, Clone, Copy, PartialEq, Eq, Structural)]
pub struct Connection {
    /// Where the connection stands.
    pub phase: ConnectionPhase,
    /// Why the connection ended, once it has.
    pub error: Option<ConnectionError>,
    /// When the drain period ends and the connection is drained, in
    /// milliseconds; armed on entering `Closing` or `Draining`.
    pub drain_deadline: Option<u64>,
    /// The current probe timeout, in milliseconds; the drain period is
    /// three times this.
    pub pto: u64,
}

impl Connection {
    /// An open connection ended neither locally nor by the peer carries no
    /// error; an ended one carries its reason and, until drained, its
    /// drain deadline.
    pub open spec fn wf(self) -> bool {
        &&& (self.phase == ConnectionPhase::Handshaking || self.phase
            == ConnectionPhase::Established) <==> self.error is None
        &&& ((self.phase == ConnectionPhase::Closing || self.phase == ConnectionPhase::Draining)
            ==> self.drain_deadline is Some)
    }

    /// A fresh connection at the start of its handshake.
    pub fn new(initial_pto: u64) -> (r: Connection)
        ensures
            r.wf(),
            r.phase == ConnectionPhase::Handshaking,
            r.error is None,
            r.pto == initial_pto,
    {
        Connection {
            phase: ConnectionPhase::Handshaking,
            error: None,
            drain_deadline: None,
            pto: initial_pto,
        }
    }

    /// Records that the crypto session reported completion, the peer's
    /// transport parameters were applied and a handshake packet was
    /// acknowledged: the connection is established. Anywhere else this
    /// changes nothing.
    pub fn on_handshake_confirmed(&mut self)
        requires
            old(self).wf(),
        ensures
            final(self).wf(),
            old(self).phase == ConnectionPhase::Handshaking ==> *final(self) == (Connection {
                phase: ConnectionPhase::Established,
                ..*old(self)
            }),
            old(self).phase != ConnectionPhase::Handshaking ==> *final(self) == *old(self),
    {
        if matches!(self.phase, ConnectionPhase::Handshaking) {
            self.phase = ConnectionPhase::Established;
        }
    }

    /// Updates the probe timeout as the loss detector re-estimates it.
    pub fn set_pto(&mut self, pto: u64)
        requires
            old(self).wf(),
        ensures
            final(self).wf(),
            *final(self) == (Connection { pto, ..*old(self) }),
    {
        self.pto = pto;
    }

    /// The local application closes the connection, or a fatal error ends
    /// it: the connection starts closing, keeps the reason, and arms the
    /// drain deadline three probe timeouts from `now`. On a connection
    /// already ended this changes nothing.
    pub fn close(&mut self, reason: ConnectionError, now: u64) -> (r: ())
        requires
            old(self).wf(),
            now + 3 * old(self).pto <= u64::MAX,
        ensures
            final(self).wf(),
            old(self).error is None ==> *final(self) == (Connection {
                phase: ConnectionPhase::Closing,
                error: Some(reason),
                drain_deadline: Some((now + 3 * old(self).pto) as u64),
                ..*old(self)
            }),
            old(self).error is Some ==> *final(self) == *old(self),
            final(self).error is Some,
    {
        if self.error.is_some() {
            return ;
        }
        self.phase = ConnectionPhase::Closing;
        self.error = Some(reason);
        self.drain_deadline = Some(now + 3 * self.pto);
    }

    /// The peer's CONNECTION_CLOSE arrived: the connection drains, keeping
    /// the peer's reason, and arms the drain deadline three probe timeouts
    /// from `now`. A connection already closing moves to draining too; one
    /// already draining or drained keeps its first reason.
    pub fn on_peer_close(&mut self, reason: ConnectionError, now: u64)
        requires
            old(self).wf(),
            now + 3 * old(self).pto <= u64::MAX,
        ensures
            final(self).wf(),
            (old(self).phase == ConnectionPhase::Draining || old(self).phase
                == ConnectionPhase::Drained) ==> *final(self) == *old(self),
            !(old(self).phase == ConnectionPhase::Draining || old(self).phase
                == ConnectionPhase::Drained) ==> *final(self) == (Connection {
                phase: ConnectionPhase::Draining,
                error: (if old(self).error is Some {
                    old(self).error
                } else {
                    Some(reason)
                }),
                drain_deadline: (if old(self).drain_deadline is Some {
                    old(self).drain_deadline
                } else {
                    Some((now + 3 * old(self).pto) as u64)
                }),
                ..*old(self)
            }),
            final(self).error is Some,
    {
        if matches!(self.phase, ConnectionPhase::Draining | ConnectionPhase::Drained) {
            return ;
        }
        self.phase = ConnectionPhase::Draining;
        if self.error.is_none() {
            self.error = Some(reason);
        }
        if self.drain_deadline.is_none() {
            self.drain_deadline = Some(now + 3 * self.pto);
        }
    }

    /// The idle timer fired: the connection is dropped without further
    /// packets, ending as timed out; a connection already ended only
    /// finishes draining.
    pub fn on_idle_timeout(&mut self)
        requires
            old(self).wf(),
        ensures
            final(self).wf(),
            final(self).phase == ConnectionPhase::Drained,
            final(self).error == (if old(self).error is Some {
                old(self).error
            } else {
                Some(ConnectionError::TimedOut)
            }),
    {
        self.phase = ConnectionPhase::Drained;
        if self.error.is_none() {
            self.error = Some(ConnectionError::TimedOut);
        }
    }

    /// The drain period ended: a closing or draining connection is
    /// drained once `now` reaches the deadline; anywhere else, or too
    /// early, nothing changes.
    pub fn on_drain_timeout(&mut self, now: u64)
        requires
            old(self).wf(),
        ensures
            final(self).wf(),
            (match old(self).phase {
                ConnectionPhase::Closing | ConnectionPhase::Draining => (match old(
                    self,
                ).drain_deadline {
                    Some(t) => now >= t,
                    None => false,
                }),
                _ => false,
            }) ==> *final(self) == (Connection { phase: ConnectionPhase::Drained, ..*old(self) }),
            !(match old(self).phase {
                ConnectionPhase::Closing | ConnectionPhase::Draining => (match old(
                    self,
                ).drain_deadline {
                    Some(t) => now >= t,
                    None => false,
                }),
                _ => false,
            }) ==> *final(self) == *old(self),
    {
        if matches!(self.phase, ConnectionPhase::Closing | ConnectionPhase::Draining) {
            if let Some(t) = self.drain_deadline {
                if now >= t {
                    self.phase = ConnectionPhase::Drained;
                }
            }
        }
    }

    /// Whether the connection may still put STREAM or ACK frames on the
    /// wire: only while handshaking or established, never once it is
    /// closing, draining, drained, or carries a fatal error.
    pub open spec fn spec_can_emit_data(self) -> bool {
        self.phase == ConnectionPhase::Handshaking || self.phase == ConnectionPhase::Established
    }

    /// Whether the connection may still emit STREAM or ACK frames.
    pub fn can_emit_data(&self) -> (r: bool)
        ensures
            r == self.spec_can_emit_data(),
    {
        matches!(self.phase, ConnectionPhase::Handshaking | ConnectionPhase::Established)
    }

    /// The transmit gate of the stream scheduler: hands the packetizer the
    /// stream's next chunk, and emits nothing at all once the connection
    /// is closing, draining, drained or carries a fatal error.
    pub fn poll_stream_transmit(&self, stream: &mut SendStreamState, max_len: usize) -> (r:
        Option<Transmit>)
        requires
            old(stream).wf(),
            max_len > 0,
        ensures
            final(stream).wf(),
            !self.spec_can_emit_data() ==> r is None && *final(stream) == *old(stream),
            self.spec_can_emit_data() ==> {
                &&& (r is Some <==> old(stream).spec_has_pending_transmit())
                &&& (r is None ==> *final(stream) == *old(stream))
                &&& (r matches Some(t) ==> {
                    &&& t.offset == old(stream).sent
                    &&& t.data@.len() <= max_len
                    &&& t.data@ == old(stream).data@.subrange(
                        t.offset as int,
                        t.offset + t.data@.len(),
                    )
                    &&& t.fin == (old(stream).state == SendState::DataSent && t.offset
                        + t.data@.len() == old(stream).write_offset())
                    &&& final(stream).sent == t.offset + t.data@.len()
                    &&& final(stream).fin_sent == (old(stream).fin_sent || t.fin)
                    &&& *final(stream) == (SendStreamState {
                        sent: final(stream).sent,
                        fin_sent: final(stream).fin_sent,
                        ..*old(stream)
                    })
                })
            },
    {
        if !self.can_emit_data() {
            return None;
        }
        stream.next_chunk(max_len)
    }
}

/// After `close()` or any fatal error the connection is closing, draining
/// or drained, and in those phases the transmit gate is shut: no further
/// STREAM or ACK frame is emitted.
pub proof fn lemma_no_frames_after_close(c: Connection)
    requires
        c.wf(),
        c.error is Some,
    ensures
        !c.spec_can_emit_data(),
{
}

/// The timers a connection maintains; each holds the instant it fires, in
/// milliseconds, or nothing while disarmed.
#[derive(Debug, Clone, Copy, PartialEq, Eq, Structural)]
pub struct Timers {
    /// Loss detection and probe timeout.
    pub loss_detection: Option<u64>,
    /// Idle timeout: the minimum of ours and the peer's.
    pub idle: Option<u64>,
    /// Keep-alive PING, if configured.
    pub keep_alive: Option<u64>,
    /// Path validation during migration.
    pub path_validation: Option<u64>,
    /// End of the close or drain period.
    pub close: Option<u64>,
    /// Earliest instant pacing releases the next packet.
    pub pacing: Option<u64>,
}

/// The earlier of two optional instants.
pub open spec fn opt_min(a: Option<u64>, b: Option<u64>) -> Option<u64> {
    match (a, b) {
        (Some(x), Some(y)) => if x <= y {
            Some(x)
        } else {
            Some(y)
        },
        (Some(x), None) => Some(x),
        (None, y) => y,
    }
}

impl Timers {
    /// No timer armed.
    pub fn new() -> (r: Timers)
        ensures
            r.loss_detection is None,
            r.idle is None,
            r.keep_alive is None,
            r.path_validation is None,
            r.close is None,
            r.pacing is None,
    {
        Timers {
            loss_detection: None,
            idle: None,
            keep_alive: None,
            path_validation: None,
            close: None,
            pacing: None,
        }
    }

    /// The earliest armed deadline.
    pub open spec fn spec_next_timeout(self) -> Option<u64> {
        opt_min(
            self.loss_detection,
            opt_min(
                self.idle,
                opt_min(self.keep_alive, opt_min(self.path_validation, opt_min(self.close, self.pacing))),
            ),
        )
    }

    /// Whether `t` is the deadline of some armed timer.
    pub open spec fn spec_is_armed_deadline(self, t: u64) -> bool {
        ||| self.loss_detection == Some(t)
        ||| self.idle == Some(t)
        ||| self.keep_alive == Some(t)
        ||| self.path_validation == Some(t)
        ||| self.close == Some(t)
        ||| self.pacing == Some(t)
    }

    /// The single wakeup instant the engine exposes: the earliest instant
    /// at which any armed timer fires, so the earliest instant at which
    /// the engine's state can change without new input. `None` while no
    /// timer is armed.
    pub fn next_timeout(&self) -> (r: Option<u64>)
        ensures
            r == self.spec_next_timeout(),
            r matches Some(t) ==> self.spec_is_armed_deadline(t),
            r matches Some(t) ==> (forall|u: u64| self.spec_is_armed_deadline(u) ==> t <= u),
            r is None ==> (forall|u: u64| !self.spec_is_armed_deadline(u)),
    {
        earlier(
            self.loss_detection,
            earlier(
                self.idle,
                earlier(
                    self.keep_alive,
                    earlier(self.path_validation, earlier(self.close, self.pacing)),
                ),
            ),
        )
    }
}

/// The earlier of two optional instants.
fn earlier(a: Option<u64>, b: Option<u64>) -> (r: Option<u64>)
    ensures
        r == opt_min(a, b),
{
    match (a, b) {
        (Some(x), Some(y)) => if x <= y {
            Some(x)
        } else {
            Some(y)
        },
        (Some(x), None) => Some(x),
        (None, y) => y,
    }
}

/// `next_timeout` is the earliest instant at which the engine's state can
/// change without new input: no armed timer fires before it, and some
/// armed timer fires exactly then.
pub proof fn lemma_next_timeout_earliest(tm: Timers, t: u64)
    requires
        tm.spec_next_timeout() == Some(t),
    ensures
        tm.spec_is_armed_deadline(t),
        forall|u: u64| tm.spec_is_armed_deadline(u) ==> t <= u,
{
}

} // verus!
