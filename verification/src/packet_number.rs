//! Packet-number bookkeeping for one packet number space: numbers are
//! assigned strictly monotonically on send and never repeat, and received
//! numbers are deduplicated so a replayed packet is ignored.

use crate::varint::MAX_VARINT;
use vstd::prelude::*;

verus! {

/// One packet number space (Initial, Handshake or Application data each
/// own one): the send-side assignment counter and the receive-side
/// duplicate tracking.
#[derive(Debug, Clone)]
pub struct PacketNumberSpace {
    /// The number the next sent packet gets; every smaller number has been
    /// used already.
    pub next_pn: u64,
    /// Every packet number received so far, each held once.
    pub received: Vec<u64>,
    /// The largest packet number received so far plus one; zero while
    /// nothing was received.
    pub largest_received: u64,
}

impl PacketNumberSpace {
    pub open spec fn wf(self) -> bool {
        &&& self.next_pn <= MAX_VARINT + 1
        &&& forall|i: int, j: int|
            0 <= i < j < self.received@.len() ==> self.received@[i] != self.received@[j]
        &&& forall|i: int| 0 <= i < self.received@.len() ==> self.received@[i] < self.largest_received
    }

    /// A fresh space: nothing sent, nothing received.
    pub fn new() -> (r: PacketNumberSpace)
        ensures
            r.wf(),
            r.next_pn == 0,
            r.received@.len() == 0,
            r.largest_received == 0,
    {
        PacketNumberSpace { next_pn: 0, received: Vec::new(), largest_received: 0 }
    }

    /// Assigns the number of the next packet to send. Numbers are handed
    /// out strictly monotonically, so no number is ever reused within the
    /// space.
    pub fn next_packet_number(&mut self) -> (pn: u64)
        requires
            old(self).wf(),
            old(self).next_pn <= MAX_VARINT,
        ensures
            final(self).wf(),
            pn == old(self).next_pn,
            *final(self) == (PacketNumberSpace { next_pn: (old(self).next_pn + 1) as u64, ..*old(self) }),
    {
        let pn = self.next_pn;
        self.next_pn = self.next_pn + 1;
        pn
    }

    /// Whether `pn` was received before.
    pub open spec fn spec_seen(self, pn: u64) -> bool {
        self.received@.contains(pn)
    }

    /// Records a received packet number. Returns `true` where the number
    /// is fresh and the packet is to be processed, `false` where it is a
    /// duplicate to be ignored; a duplicate changes nothing.
    pub fn on_receive(&mut self, pn: u64) -> (r: bool)
        requires
            old(self).wf(),
            pn <= MAX_VARINT,
        ensures
            final(self).wf(),
            r <==> !old(self).spec_seen(pn),
            r ==> final(self).received@ == old(self).received@ + seq![pn]
                && final(self).next_pn == old(self).next_pn,
            !r ==> *final(self) == *old(self),
            final(self).spec_seen(pn),
    {
        let mut i: usize = 0;
        while i < self.received.len()
            invariant
                *self == *old(self),
                old(self).wf(),
                i <= self.received@.len(),
                forall|j: int| 0 <= j < i ==> self.received@[j] != pn,
            decreases self.received@.len() - i,
        {
            if self.received[i] == pn {
                assert(self.spec_seen(pn));
                return false;
            }
            i = i + 1;
        }
        assert(!self.spec_seen(pn)) by {
            if self.received@.contains(pn) {
                let j = choose|j: int| 0 <= j < self.received@.len() && self.received@[j] == pn;
                assert(false);
            }
        }
        self.received.push(pn);
        if pn >= self.largest_received {
            self.largest_received = pn + 1;
        }
        proof {
            assert(self.received@[self.received@.len() - 1] == pn);
        }
        true
    }
}

/// Sent packet numbers are strictly monotonic and unique: of two
/// successive assignments, the first yields the strictly smaller number.
pub proof fn lemma_send_pns_strictly_monotonic(
    s0: PacketNumberSpace,
    s1: PacketNumberSpace,
    s2: PacketNumberSpace,
    a: u64,
    b: u64,
)
    requires
        s0.wf(),
        s0.next_pn <= MAX_VARINT,
        // first assignment: s0 to s1 yields a
        a == s0.next_pn,
        s1 == (PacketNumberSpace { next_pn: (s0.next_pn + 1) as u64, ..s0 }),
        s1.next_pn <= MAX_VARINT,
        // second assignment: s1 to s2 yields b
        b == s1.next_pn,
        s2 == (PacketNumberSpace { next_pn: (s1.next_pn + 1) as u64, ..s1 }),
    ensures
        a < b,
        a != b,
{
}

} // verus!
