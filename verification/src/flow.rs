//! Receive-side flow control, for one stream or for the whole connection:
//! the credit we advertise to the peer, what the peer has sent against it,
//! and what the application has consumed. Credit never regresses, and data
//! beyond the advertised credit is a FLOW_CONTROL_ERROR.

use crate::varint::MAX_VARINT;
use vstd::prelude::*;

verus! {

/// The peer sent more data than the credit we had advertised:
/// FLOW_CONTROL_ERROR.
#[derive(Debug, Clone, Copy, PartialEq, Eq, Structural)]
pub struct FlowControlError;

/// Flow-control accounting for received data. All quantities are absolute
/// byte totals since the start of the stream or connection.
#[derive(Debug, Clone, Copy, PartialEq, Eq, Structural)]
pub struct FlowControl {
    /// Total credit advertised to the peer: the peer may send this many
    /// bytes in all.
    pub advertised: u64,
    /// Bytes the peer has sent us so far.
    pub received: u64,
    /// Bytes the application has consumed so far.
    pub consumed: u64,
    /// Window kept open beyond what the application has consumed.
    pub window: u64,
}

impl FlowControl {
    /// Received data never exceeds advertised credit, consumption never
    /// exceeds receipt, and credit stays encodable.
    pub open spec fn wf(self) -> bool {
        &&& self.consumed <= self.received
        &&& self.received <= self.advertised
        &&& self.advertised <= MAX_VARINT
        &&& self.window <= MAX_VARINT
    }

    /// Fresh accounting advertising one full window.
    pub fn new(window: u64) -> (r: FlowControl)
        requires
            window <= MAX_VARINT,
        ensures
            r.wf(),
            r.advertised == window,
            r.received == 0,
            r.consumed == 0,
            r.window == window,
    {
        FlowControl { advertised: window, received: 0, consumed: 0, window }
    }

    /// Accounts for `n` freshly received bytes. Fails, leaving the
    /// accounting unchanged, exactly where the total would exceed the
    /// advertised credit.
    pub fn on_receive(&mut self, n: u64) -> (r: Result<(), FlowControlError>)
        requires
            old(self).wf(),
        ensures
            final(self).wf(),
            old(self).received + n <= old(self).advertised <==> r is Ok,
            r is Ok ==> *final(self) == (FlowControl {
                received: (old(self).received + n) as u64,
                ..*old(self)
            }),
            r is Err ==> *final(self) == *old(self),
    {
        if n <= self.advertised - self.received {
            self.received = self.received + n;
            Ok(())
        } else {
            Err(FlowControlError)
        }
    }

    /// Accounts for `n` bytes handed to the application, which can only be
    /// bytes received earlier.
    pub fn on_consume(&mut self, n: u64)
        requires
            old(self).wf(),
            old(self).consumed + n <= old(self).received,
        ensures
            final(self).wf(),
            *final(self) == (FlowControl { consumed: (old(self).consumed + n) as u64, ..*old(self) }),
    {
        self.consumed = self.consumed + n;
    }

    /// The credit a new advertisement would carry: one window beyond what
    /// the application has consumed, capped at the encodable maximum.
    pub open spec fn spec_target(self) -> u64 {
        if self.consumed + self.window <= MAX_VARINT {
            (self.consumed + self.window) as u64
        } else {
            MAX_VARINT
        }
    }

    /// Advertises fresh credit once the application has consumed at least
    /// half a window since the last advertisement; the advertised credit
    /// never regresses. Returns the value to put in a MAX_DATA or
    /// MAX_STREAM_DATA frame, or `None` while no advertisement is due.
    pub fn maybe_advertise(&mut self) -> (r: Option<u64>)
        requires
            old(self).wf(),
        ensures
            final(self).wf(),
            r is Some <==> old(self).spec_target() >= old(self).advertised + old(self).window / 2,
            r matches Some(v) ==> {
                &&& v == old(self).spec_target()
                &&& v >= old(self).advertised
                &&& *final(self) == (FlowControl { advertised: v, ..*old(self) })
            },
            r is None ==> *final(self) == *old(self),
            final(self).advertised >= old(self).advertised,
    {
        let target = if self.window <= MAX_VARINT - self.consumed {
            self.consumed + self.window
        } else {
            MAX_VARINT
        };
        if target >= self.window / 2 && target - self.window / 2 >= self.advertised {
            self.advertised = target;
            Some(target)
        } else {
            None
        }
    }
}

/// Advertised credit never regresses, and received data never exceeds the
/// advertised credit: both hold of every well-formed accounting state, the
/// first because every mutation leaves `advertised` no smaller (stated in
/// each method's contract), the second as an invariant.
pub proof fn lemma_credit_bounds_received(f: FlowControl)
    requires
        f.wf(),
    ensures
        f.received <= f.advertised,
        f.consumed <= f.received,
{
}

} // verus!
