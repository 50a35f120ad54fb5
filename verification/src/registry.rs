//! The process-wide room registry: a map from room identifier to room with
//! get-or-create semantics. Rooms are created lazily, never removed, and at
//! most one room ever exists per identifier.

use vstd::prelude::*;
use crate::envelope::{Envelope, EnvelopeV, envelope_valid};
use crate::room::Room;

verus! {

/// All rooms created so far, addressed by dense index; identifiers stay
/// unique. Callers hold indices as handles, so a looked-up room is always
/// the one instance everybody else shares.
pub struct Registry {
    rooms: Vec<Room>,
}

impl Registry {
    /// How many rooms exist.
    pub closed spec fn room_count(&self) -> int {
        self.rooms@.len() as int
    }

    /// The room stored at index `i`.
    pub closed spec fn room_at(&self, i: int) -> Room {
        self.rooms@[i]
    }

    /// Whether a room was already created under `id`.
    pub open spec fn contains_id(&self, id: i64) -> bool {
        exists|i: int| 0 <= i < self.room_count() && (#[trigger] self.room_at(i)).spec_id() == id
    }

    /// The index of the room created under `id`, when one exists.
    pub open spec fn index_of(&self, id: i64) -> int {
        choose|i: int| 0 <= i < self.room_count() && (#[trigger] self.room_at(i)).spec_id() == id
    }

    /// Every room is well-formed and no identifier repeats.
    pub open spec fn wf(&self) -> bool {
        &&& forall|i: int| 0 <= i < self.room_count() ==> (#[trigger] self.room_at(i)).wf()
        &&& forall|i: int, j: int|
            #![trigger self.room_at(i).spec_id(), self.room_at(j).spec_id()]
            0 <= i < self.room_count() && 0 <= j < self.room_count() && i != j
                ==> self.room_at(i).spec_id() != self.room_at(j).spec_id()
    }

    /// The publish history of the room created under `id`; empty while no
    /// room exists there.
    pub open spec fn log_of(&self, id: i64) -> Seq<EnvelopeV> {
        if self.contains_id(id) {
            self.room_at(self.index_of(id)).log()
        } else {
            Seq::empty()
        }
    }

    /// At most one room ever exists per identifier: two indices that carry
    /// the same identifier are the same index.
    pub proof fn lemma_one_room_per_id(&self, i: int, j: int)
        requires
            self.wf(),
            0 <= i < self.room_count(),
            0 <= j < self.room_count(),
            self.room_at(i).spec_id() == self.room_at(j).spec_id(),
        ensures
            i == j,
    {
    }

    /// A registry that kept its identifiers, room for room, resolves every
    /// identifier to the same index as before.
    pub proof fn lemma_lookup_stable(&self, post: &Registry, id: i64)
        requires
            post.wf(),
            self.room_count() == post.room_count(),
            forall|j: int|
                0 <= j < self.room_count() ==> (#[trigger] self.room_at(j)).spec_id() == post.room_at(
                    j,
                ).spec_id(),
        ensures
            self.contains_id(id) == post.contains_id(id),
            self.contains_id(id) ==> self.index_of(id) == post.index_of(id),
    {
        if self.contains_id(id) {
            let w = self.index_of(id);
            assert(post.room_at(w).spec_id() == id);
            assert(post.contains_id(id));
            let v = post.index_of(id);
            post.lemma_one_room_per_id(v, w);
        }
        if post.contains_id(id) {
            let w = post.index_of(id);
            assert(self.room_at(w).spec_id() == id);
            assert(self.contains_id(id));
        }
    }

    /// An empty registry.
    pub fn new() -> (r: Registry)
        ensures
            r.wf(),
            r.room_count() == 0,
    {
        Registry { rooms: Vec::new() }
    }

    /// The existing room for `id` when present, else a freshly created one
    /// with an empty history; either way callers converge on the single room
    /// under that identifier. Nothing else changes.
    pub fn get_or_create(&mut self, id: i64) -> (i: usize)
        requires
            old(self).wf(),
        ensures
            final(self).wf(),
            i < final(self).room_count(),
            final(self).room_at(i as int).spec_id() == id,
            final(self).contains_id(id),
            old(self).contains_id(id) ==> *final(self) == *old(self) && i as int == old(self).index_of(id),
            !old(self).contains_id(id) ==> {
                &&& i as int == old(self).room_count()
                &&& final(self).room_count() == old(self).room_count() + 1
                &&& final(self).room_at(i as int).log() == Seq::<EnvelopeV>::empty()
            },
            forall|j: int| 0 <= j < old(self).room_count() ==> final(self).room_at(j) == old(self).room_at(j),
    {
        let n = self.rooms.len();
        let mut k: usize = 0;
        while k < n
            invariant
                n == self.rooms@.len(),
                k <= n,
                self.wf(),
                *self == *old(self),
                forall|j: int| 0 <= j < k ==> (#[trigger] self.room_at(j)).spec_id() != id,
            decreases n - k,
        {
            if self.rooms[k].room_id() == id {
                proof {
                    assert(self.room_at(k as int).spec_id() == id);
                    assert(self.contains_id(id));
                    let w = self.index_of(id);
                    self.lemma_one_room_per_id(w, k as int);
                }
                return k;
            }
            k = k + 1;
        }
        assert(!self.contains_id(id));
        let room = Room::new(id);
        let ghost fresh = room;
        self.rooms.push(room);
        proof {
            let c = self.room_count();
            assert(self.rooms@ == old(self).rooms@.push(fresh));
            assert(self.room_at(c - 1) == fresh);
            assert forall|j: int| 0 <= j < c - 1 implies self.room_at(j) == old(self).room_at(j) by {
                assert(self.rooms@[j] == old(self).rooms@[j]);
            }
            assert forall|p: int, q: int|
                0 <= p < c && 0 <= q < c && p != q implies self.room_at(p).spec_id() != self.room_at(
                q,
            ).spec_id() by {
                if p == c - 1 {
                    assert(old(self).room_at(q).spec_id() != id);
                } else if q == c - 1 {
                    assert(old(self).room_at(p).spec_id() != id);
                }
            }
            assert(self.room_at(c - 1).spec_id() == id);
            assert(self.contains_id(id));
        }
        self.rooms.len() - 1
    }

    /// Shared access to the room at index `i`.
    pub fn room_ref(&self, i: usize) -> (r: &Room)
        requires
            i < self.room_count(),
        ensures
            *r == self.room_at(i as int),
    {
        &self.rooms[i]
    }

    /// Publish `env` into the room at index `i`; every other room is
    /// untouched.
    pub fn publish_to(&mut self, i: usize, env: Envelope)
        requires
            old(self).wf(),
            i < old(self).room_count(),
            envelope_valid(env@),
            old(self).room_at(i as int).log().len() < u64::MAX,
        ensures
            final(self).wf(),
            final(self).room_count() == old(self).room_count(),
            final(self).room_at(i as int).spec_id() == old(self).room_at(i as int).spec_id(),
            final(self).room_at(i as int).log() == old(self).room_at(i as int).log().push(env@),
            forall|j: int|
                0 <= j < old(self).room_count() && j != i ==> final(self).room_at(j) == old(self).room_at(
                    j,
                ),
    {
        self.rooms[i].publish(env);
        proof {
            assert forall|j: int|
                0 <= j < self.room_count() && j != i as int implies self.room_at(j) == old(self).room_at(
                j,
            ) by {
                assert(self.rooms@[j] == old(self).rooms@[j]);
            }
            assert(self.room_at(i as int).wf());
        }
    }
}

} // verus!
