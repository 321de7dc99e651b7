//! Stream identities: a 62-bit integer whose two low bits encode the
//! initiating side and the direction, and the per-category accounting that
//! opens identifiers in ascending order.

use crate::varint::MAX_VARINT;
use vstd::prelude::*;

verus! {

/// Which side of the connection a thing belongs to.
#[derive(Debug, Clone, Copy, PartialEq, Eq, Structural)]
pub enum Side {
    Client,
    Server,
}

impl Side {
    /// The other side.
    pub fn other(self) -> (r: Side)
        ensures
            r == (match self {
                Side::Client => Side::Server,
                Side::Server => Side::Client,
            }),
    {
        match self {
            Side::Client => Side::Server,
            Side::Server => Side::Client,
        }
    }
}

/// Whether a stream carries data both ways or one way only.
#[derive(Debug, Clone, Copy, PartialEq, Eq, Structural)]
pub enum Dir {
    /// Both endpoints may send.
    Bi,
    /// Only the initiator may send.
    Uni,
}

/// Largest per-category stream index: the identifier keeps two bits for the
/// category, leaving 60 for the index.
pub const MAX_STREAM_INDEX: u64 = 0x0fff_ffff_ffff_ffff;

/// The identity of a stream: `4 * index + 2 * dir + side`, below `2^62`.
#[derive(Debug, Clone, Copy, PartialEq, Eq, Structural)]
pub struct StreamId {
    value: u64,
}

impl View for StreamId {
    type V = u64;

    closed spec fn view(&self) -> u64 {
        self.value
    }
}

/// The side a raw stream identifier names as initiator: bit 0.
pub open spec fn spec_initiator(value: u64) -> Side {
    if value % 2 == 0 {
        Side::Client
    } else {
        Side::Server
    }
}

/// The direction a raw stream identifier names: bit 1.
pub open spec fn spec_dir(value: u64) -> Dir {
    if value % 4 < 2 {
        Dir::Bi
    } else {
        Dir::Uni
    }
}

/// The per-category index of a raw stream identifier: the bits above the
/// category bits.
pub open spec fn spec_index(value: u64) -> u64 {
    value / 4
}

impl StreamId {
    #[verifier::type_invariant]
    pub closed spec fn wf(self) -> bool {
        self.value <= MAX_VARINT
    }

    /// The identifier of the stream of the given category and index.
    pub fn new(initiator: Side, dir: Dir, index: u64) -> (r: StreamId)
        requires
            index <= MAX_STREAM_INDEX,
        ensures
            r.initiator_spec() == initiator,
            r.dir_spec() == dir,
            r.index_spec() == index,
    {
        let side_bit: u64 = match initiator {
            Side::Client => 0,
            Side::Server => 1,
        };
        let dir_bit: u64 = match dir {
            Dir::Bi => 0,
            Dir::Uni => 2,
        };
        let value = index * 4 + dir_bit + side_bit;
        proof {
            assert(value % 2 == side_bit % 2 && value % 4 == dir_bit + side_bit && value / 4
                == index) by (nonlinear_arith)
                requires
                    value == index * 4 + dir_bit + side_bit,
                    side_bit == 0 || side_bit == 1,
                    dir_bit == 0 || dir_bit == 2,
                    0 <= index,
            ;
        }
        StreamId { value }
    }

    /// The raw 62-bit value.
    pub fn value(self) -> (r: u64)
        ensures
            r == self@,
            r <= MAX_VARINT,
    {
        proof {
            use_type_invariant(&self);
        }
        self.value
    }

    pub open spec fn initiator_spec(self) -> Side {
        spec_initiator(self@)
    }

    /// Which side of a connection initiated the stream: bit 0.
    pub fn initiator(self) -> (r: Side)
        ensures
            r == self.initiator_spec(),
    {
        if self.value % 2 == 0 {
            Side::Client
        } else {
            Side::Server
        }
    }

    pub open spec fn dir_spec(self) -> Dir {
        spec_dir(self@)
    }

    /// Which direction the stream carries data in: bit 1.
    pub fn dir(self) -> (r: Dir)
        ensures
            r == self.dir_spec(),
    {
        if self.value % 4 < 2 {
            Dir::Bi
        } else {
            Dir::Uni
        }
    }

    pub open spec fn index_spec(self) -> u64 {
        spec_index(self@)
    }

    /// The position of the stream within its category.
    pub fn index(self) -> (r: u64)
        ensures
            r == self.index_spec(),
    {
        self.value / 4
    }
}

/// Per-category opening accounting for one side's locally initiated
/// streams: identifiers are handed out in strictly ascending index order.
#[derive(Debug, Clone, Copy, PartialEq, Eq, Structural)]
pub struct StreamOpens {
    /// The index the next locally opened stream of this category gets;
    /// equally, how many streams of the category have been opened.
    pub next: u64,
    /// How many streams of this category the peer currently lets us open.
    pub max: u64,
}

impl StreamOpens {
    pub open spec fn wf(self) -> bool {
        &&& self.next <= MAX_STREAM_INDEX + 1
        &&& self.max <= MAX_STREAM_INDEX + 1
    }

    /// Fresh accounting under a peer-granted limit.
    pub fn new(max: u64) -> (r: StreamOpens)
        requires
            max <= MAX_STREAM_INDEX + 1,
        ensures
            r.wf(),
            r.next == 0,
            r.max == max,
    {
        StreamOpens { next: 0, max }
    }

    /// Opens the next stream of the category, in ascending index order.
    /// Returns `None` exactly where the peer's stream limit is reached;
    /// that is reported locally and is not an error.
    pub fn open(&mut self, initiator: Side, dir: Dir) -> (r: Option<StreamId>)
        requires
            old(self).wf(),
        ensures
            final(self).wf(),
            old(self).next < old(self).max <==> r is Some,
            r matches Some(id) ==> {
                &&& id.index_spec() == old(self).next
                &&& id.initiator_spec() == initiator
                &&& id.dir_spec() == dir
                &&& *final(self) == (StreamOpens { next: (old(self).next + 1) as u64, ..*old(self) })
            },
            r is None ==> *final(self) == *old(self),
    {
        if self.next < self.max {
            let id = StreamId::new(initiator, dir, self.next);
            self.next = self.next + 1;
            Some(id)
        } else {
            None
        }
    }

    /// Raises the category's limit to what the peer last advertised;
    /// regressions are ignored, so the limit never shrinks.
    pub fn set_max(&mut self, max: u64)
        requires
            old(self).wf(),
            max <= MAX_STREAM_INDEX + 1,
        ensures
            final(self).wf(),
            final(self).max == (if max > old(self).max {
                max
            } else {
                old(self).max
            }),
            final(self).next == old(self).next,
    {
        if max > self.max {
            self.max = max;
        }
    }
}

/// Identifiers of one category are opened in ascending order: of two
/// successive opens, the first yields the smaller index, and every index
/// below an opened one has been opened before it.
pub proof fn lemma_opens_ascending(s0: StreamOpens, s1: StreamOpens, s2: StreamOpens, a: StreamId, b: StreamId)
    requires
        s0.wf(),
        // first open: s0 to s1 yields a
        a.index_spec() == s0.next,
        s1 == (StreamOpens { next: (s0.next + 1) as u64, ..s0 }),
        s0.next < s0.max,
        // second open: s1 to s2 yields b
        b.index_spec() == s1.next,
        s2 == (StreamOpens { next: (s1.next + 1) as u64, ..s1 }),
        s1.next < s1.max,
    ensures
        a.index_spec() < b.index_spec(),
{
}

/// Per-category accounting of the streams the peer has opened towards us.
/// Opening index `n` implicitly opens every smaller index of the category,
/// so a single count carries the whole set.
#[derive(Debug, Clone, Copy, PartialEq, Eq, Structural)]
pub struct RemoteOpens {
    /// How many streams of the category the peer has opened: every index
    /// below `opened` is open.
    pub opened: u64,
    /// How many streams of the category we let the peer open.
    pub max: u64,
}

impl RemoteOpens {
    pub open spec fn wf(self) -> bool {
        &&& self.opened <= self.max
        &&& self.max <= MAX_STREAM_INDEX + 1
    }

    /// Fresh accounting under a locally advertised limit.
    pub fn new(max: u64) -> (r: RemoteOpens)
        requires
            max <= MAX_STREAM_INDEX + 1,
        ensures
            r.wf(),
            r.opened == 0,
            r.max == max,
    {
        RemoteOpens { opened: 0, max }
    }

    /// Records a peer packet naming stream index `index` of this category.
    /// Succeeds with `true` where the index opens new streams (implicitly
    /// opening every smaller one), with `false` where it was already open,
    /// and fails exactly where the peer oversteps the advertised limit,
    /// a STREAM_LIMIT_ERROR.
    pub fn on_remote_open(&mut self, index: u64) -> (r: Result<bool, StreamLimitError>)
        requires
            old(self).wf(),
            index <= MAX_STREAM_INDEX,
        ensures
            final(self).wf(),
            index < old(self).max <==> r is Ok,
            r is Ok ==> final(self).opened == (if index + 1 > old(self).opened {
                index + 1
            } else {
                old(self).opened as int
            }) && final(self).max == old(self).max,
            r == Ok::<bool, StreamLimitError>(true) <==> index >= old(self).opened && index < old(
                self,
            ).max,
            r is Err ==> *final(self) == *old(self),
    {
        if index >= self.max {
            return Err(StreamLimitError);
        }
        if index >= self.opened {
            self.opened = index + 1;
            Ok(true)
        } else {
            Ok(false)
        }
    }
}

/// The peer opened more streams of a category than we advertised:
/// STREAM_LIMIT_ERROR.
#[derive(Debug, Clone, Copy, PartialEq, Eq, Structural)]
pub struct StreamLimitError;

} // verus!
