//! A room: an addressable fan-out channel with bounded buffering. Publishing
//! never blocks; a subscriber that falls more than the buffer capacity behind
//! skips forward to the oldest retained envelope instead of slowing anyone
//! down.

use vstd::prelude::*;
use crate::envelope::{Envelope, EnvelopeV, envelope_valid};

verus! {

/// How many pending envelopes a room buffers for its subscribers.
pub const ROOM_CAPACITY: usize = 100;

/// Index of the oldest envelope still retained out of `len` published ones.
pub open spec fn first_retained_of(len: int) -> int {
    if len <= ROOM_CAPACITY {
        0
    } else {
        len - ROOM_CAPACITY
    }
}

/// A private receive position inside a room's publish history.
#[derive(Clone, Copy)]
pub struct Cursor {
    next: u64,
}

impl Cursor {
    /// The index into the room's publish history this cursor reads next.
    pub closed spec fn pos(&self) -> int {
        self.next as int
    }
}

/// What one receive step yields for a cursor.
pub enum Delivery {
    /// The next envelope, in publish order.
    Ready(Envelope),
    /// The cursor fell behind by more than the buffer capacity; it skipped
    /// forward to the oldest retained envelope. Nothing was delivered.
    Lagged,
    /// The cursor has seen everything published so far; a live subscriber
    /// would block here until the next publish.
    Pending,
}

/// One receive step as a function of a room history and a cursor position:
/// the envelope delivered, if any, and the position the cursor moves to.
/// Past the end nothing is delivered and the cursor stays; behind the
/// retained tail nothing is delivered and the cursor skips to the oldest
/// retained envelope; inside the tail the envelope at the cursor's position
/// is delivered and the cursor advances by one.
pub open spec fn spec_receive(log: Seq<EnvelopeV>, pos: int) -> (Option<EnvelopeV>, int) {
    if pos >= log.len() {
        (None::<EnvelopeV>, pos)
    } else if pos < first_retained_of(log.len() as int) {
        (None::<EnvelopeV>, first_retained_of(log.len() as int))
    } else {
        (Some(log[pos]), pos + 1)
    }
}

/// Everything a subscriber at position `pos` is handed over `k` receive
/// steps in a row, while nothing new is published into the room.
pub open spec fn drained(log: Seq<EnvelopeV>, pos: int, k: nat) -> Seq<EnvelopeV>
    decreases k,
{
    if k == 0 {
        Seq::empty()
    } else {
        let step = spec_receive(log, pos);
        let rest = drained(log, step.1, (k - 1) as nat);
        match step.0 {
            Some(env) => seq![env] + rest,
            None => rest,
        }
    }
}

/// Publish order is delivery order: a subscriber standing at position `p`
/// of a room's history, not behind the retained tail, is handed every
/// envelope from `p` on exactly once, unmodified and in publish order -
/// once it has taken enough steps, it has read exactly
/// `log[p], log[p + 1], ...`, nothing else.
pub proof fn lemma_receive_in_order(log: Seq<EnvelopeV>, p: int, k: nat)
    requires
        first_retained_of(log.len() as int) <= p <= log.len(),
        p + k >= log.len(),
    ensures
        drained(log, p, k) == log.subrange(p, log.len() as int),
    decreases k,
{
    if k == 0 {
        assert(drained(log, p, 0) =~= log.subrange(p, log.len() as int));
    } else if p >= log.len() {
        lemma_receive_in_order(log, p, (k - 1) as nat);
    } else {
        lemma_receive_in_order(log, p + 1, (k - 1) as nat);
        assert(seq![log[p]] + log.subrange(p + 1, log.len() as int) =~= log.subrange(
            p,
            log.len() as int,
        ));
    }
}

/// A lagged subscriber loses only what left the buffer: from any position
/// behind the retained tail, enough receive steps hand it exactly the
/// retained suffix of the history, in publish order.
pub proof fn lemma_lag_skips_to_oldest(log: Seq<EnvelopeV>, p: int, k: nat)
    requires
        0 <= p < first_retained_of(log.len() as int),
        k >= 1,
        first_retained_of(log.len() as int) + k - 1 >= log.len(),
    ensures
        drained(log, p, k) == log.subrange(first_retained_of(log.len() as int), log.len() as int),
{
    lemma_receive_in_order(log, first_retained_of(log.len() as int), (k - 1) as nat);
}

/// An addressable fan-out channel. It owns no connection state: sessions hold
/// cursors into its publish history, of which only the last
/// [`ROOM_CAPACITY`] envelopes stay buffered.
pub struct Room {
    id: i64,
    buffer: Vec<Envelope>,
    published: u64,
    log: Ghost<Seq<EnvelopeV>>,
}

impl Room {
    /// The identifier this room was created under.
    pub closed spec fn spec_id(&self) -> i64 {
        self.id
    }

    /// Every envelope ever published here, in publish order.
    pub closed spec fn log(&self) -> Seq<EnvelopeV> {
        self.log@
    }

    /// Index of the oldest envelope the buffer still holds.
    pub open spec fn first_retained(&self) -> int {
        first_retained_of(self.log().len() as int)
    }

    /// The buffer holds exactly the retained tail of the log, and nothing
    /// over the length bound was ever published.
    pub closed spec fn wf(&self) -> bool {
        &&& self.published == self.log@.len()
        &&& self.buffer@.len() == self.log@.len() - self.first_retained()
        &&& forall|i: int|
            0 <= i < self.buffer@.len() ==> (#[trigger] self.buffer@[i])@ == self.log@[self.first_retained() + i]
        &&& forall|i: int| 0 <= i < self.log@.len() ==> envelope_valid(#[trigger] self.log@[i])
    }

    /// Everything in a well-formed room's history respects the text bound.
    pub proof fn lemma_log_valid(&self)
        requires
            self.wf(),
        ensures
            forall|i: int| 0 <= i < self.log().len() ==> envelope_valid(#[trigger] self.log()[i]),
    {
    }

    /// A fresh room with an empty history.
    pub fn new(id: i64) -> (r: Room)
        ensures
            r.wf(),
            r.spec_id() == id,
            r.log() == Seq::<EnvelopeV>::empty(),
    {
        Room { id, buffer: Vec::new(), published: 0, log: Ghost(Seq::empty()) }
    }

    /// The identifier, for lookups.
    pub fn room_id(&self) -> (r: i64)
        ensures
            r == self.spec_id(),
    {
        self.id
    }

    /// How many envelopes were ever published here.
    pub fn published_count(&self) -> (n: u64)
        requires
            self.wf(),
        ensures
            n == self.log().len(),
    {
        self.published
    }

    /// Broadcast `env` to every subscriber: it is appended to the publish
    /// history, and the oldest buffered envelope is evicted once the buffer
    /// is full. With no subscribers the envelope is simply retained and
    /// eventually evicted; publishing never fails and never blocks.
    pub fn publish(&mut self, env: Envelope)
        requires
            old(self).wf(),
            envelope_valid(env@),
            old(self).log().len() < u64::MAX,
        ensures
            final(self).wf(),
            final(self).spec_id() == old(self).spec_id(),
            final(self).log() == old(self).log().push(env@),
    {
        self.buffer.push(env);
        if self.buffer.len() > ROOM_CAPACITY {
            self.buffer.remove(0);
        }
        self.published = self.published + 1;
        proof {
            self.log@ = self.log@.push(env@);
        }
    }

    /// A fresh cursor that will observe exactly the envelopes published from
    /// this point forward.
    pub fn subscribe(&self) -> (c: Cursor)
        requires
            self.wf(),
        ensures
            c.pos() == self.log().len(),
    {
        Cursor { next: self.published }
    }

    /// One receive step for `c`: the next envelope in publish order when the
    /// cursor still points into the retained tail; `Lagged` (skipping forward
    /// to the oldest retained envelope) when it fell further behind;
    /// `Pending` when it has caught up with everything published.
    pub fn receive(&self, c: &mut Cursor) -> (r: Delivery)
        requires
            self.wf(),
            old(c).pos() <= self.log().len(),
        ensures
            final(c).pos() <= self.log().len(),
            ((match r {
                Delivery::Ready(env) => Some(env@),
                Delivery::Lagged => None::<EnvelopeV>,
                Delivery::Pending => None::<EnvelopeV>,
            }), final(c).pos()) == spec_receive(self.log(), old(c).pos()),
            (match r {
                Delivery::Ready(env) => {
                    &&& self.first_retained() <= old(c).pos() < self.log().len()
                    &&& env@ == self.log()[old(c).pos()]
                    &&& final(c).pos() == old(c).pos() + 1
                },
                Delivery::Lagged => {
                    &&& old(c).pos() < self.first_retained()
                    &&& final(c).pos() == self.first_retained()
                },
                Delivery::Pending => {
                    &&& old(c).pos() == self.log().len()
                    &&& final(c).pos() == old(c).pos()
                },
            }),
    {
        let oldest: u64 = self.published - (self.buffer.len() as u64);
        if c.next == self.published {
            Delivery::Pending
        } else if c.next < oldest {
            c.next = oldest;
            Delivery::Lagged
        } else {
            assert(c.next - oldest < self.buffer@.len());
            let idx: usize = (c.next - oldest) as usize;
            let env = self.buffer[idx].clone();
            c.next = c.next + 1;
            Delivery::Ready(env)
        }
    }
}

} // verus!
