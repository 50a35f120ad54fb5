//! The connection-facing core. A hub owns the shared room registry, the
//! process-wide view counter and every live session. Each session is one
//! connection's standing: the room it joined, the name it joined under, and
//! its private receive position in that room's publish history. The inbound
//! and outbound activities of a connection are each one step here.

use vstd::prelude::*;
use crate::counter::ViewCounter;
use crate::envelope::{EnvelopeV, wire_of};
use crate::frame::{accepted_text, inbound_envelope};
use crate::registry::Registry;
use crate::room::first_retained_of;
use crate::room::Cursor;
use crate::room::Delivery;

verus! {

/// One connection's standing in the hub.
struct Session {
    room_index: usize,
    user: String,
    cursor: Cursor,
}

/// What the inbound activity did with one client frame.
#[derive(Clone, Copy, PartialEq, Eq, Structural, Debug)]
pub enum InboundOutcome {
    /// The frame carried an acceptable message; it was published to the
    /// session's room.
    Published,
    /// The frame was malformed or its text too long; it was dropped and the
    /// session carries on unchanged.
    Dropped,
}

/// One outbound step for a session.
pub enum OutboundEvent {
    /// The next envelope of the session's room, serialized in the wire
    /// shape and counted as one view.
    Delivered(String),
    /// The session fell behind by more than the room buffers; it skipped
    /// forward, losing the missed envelopes, and delivers again from the
    /// oldest retained one.
    Lagged,
    /// Nothing new yet: a live connection would suspend here until the next
    /// publish.
    Idle,
}

/// The whole broadcast core as one state: rooms, sessions and the view
/// counter.
pub struct Hub {
    registry: Registry,
    views: ViewCounter,
    sessions: Vec<Session>,
}

impl Hub {
    /// Total successful outbound deliveries since the start or the last
    /// reset.
    pub closed spec fn view_count(&self) -> u64 {
        self.views.spec_count()
    }

    /// How many sessions ever connected.
    pub closed spec fn session_count(&self) -> int {
        self.sessions@.len() as int
    }

    /// The display name session `s` joined under.
    pub closed spec fn session_user(&self, s: int) -> Seq<char> {
        self.sessions@[s].user@
    }

    /// The identifier of the room session `s` joined.
    pub closed spec fn session_room(&self, s: int) -> i64 {
        self.registry.room_at(self.sessions@[s].room_index as int).spec_id()
    }

    /// Session `s`'s private receive position in its room's history.
    pub closed spec fn session_pos(&self, s: int) -> int {
        self.sessions@[s].cursor.pos()
    }

    /// Whether a room was already created under `id`.
    pub closed spec fn has_room(&self, id: i64) -> bool {
        self.registry.contains_id(id)
    }

    /// Everything ever published into the room created under `id`, in
    /// publish order; empty while no such room exists.
    pub closed spec fn room_log(&self, id: i64) -> Seq<EnvelopeV> {
        self.registry.log_of(id)
    }

    /// The registry is sound and every session points at an existing room,
    /// its cursor inside that room's history.
    pub closed spec fn wf(&self) -> bool {
        &&& self.registry.wf()
        &&& forall|s: int|
            0 <= s < self.session_count() ==> {
                &&& (#[trigger] self.sessions@[s]).room_index < self.registry.room_count()
                &&& 0 <= self.sessions@[s].cursor.pos() <= self.registry.room_at(
                    self.sessions@[s].room_index as int,
                ).log().len()
            }
    }

    /// A session's room is registered, and the room its index points at is
    /// the one its identifier looks up.
    proof fn lemma_session_room_log(&self, s: int)
        requires
            self.wf(),
            0 <= s < self.session_count(),
        ensures
            self.has_room(self.session_room(s)),
            self.registry.index_of(self.session_room(s)) == self.sessions@[s].room_index as int,
            self.room_log(self.session_room(s)) == self.registry.room_at(
                self.sessions@[s].room_index as int,
            ).log(),
            0 <= self.session_pos(s) <= self.room_log(self.session_room(s)).len(),
    {
        let ri = self.sessions@[s].room_index as int;
        let id = self.registry.room_at(ri).spec_id();
        assert(self.registry.contains_id(id));
        let w = self.registry.index_of(id);
        self.registry.lemma_one_room_per_id(w, ri);
    }

    /// An empty hub: no rooms, no sessions, the counter at zero.
    pub fn new() -> (h: Hub)
        ensures
            h.wf(),
            h.session_count() == 0,
            h.view_count() == 0,
            forall|id: i64| !(#[trigger] h.has_room(id)),
            forall|id: i64| #[trigger] h.room_log(id) == Seq::<EnvelopeV>::empty(),
    {
        let h = Hub { registry: Registry::new(), views: ViewCounter::new(), sessions: Vec::new() };
        proof {
            assert forall|id: i64| !(#[trigger] h.has_room(id)) by {
                if h.registry.contains_id(id) {
                    let w = h.registry.index_of(id);
                    assert(0 <= w < h.registry.room_count());
                }
            }
        }
        h
    }

    /// Establish a connection to the room under `room_id` as `user`: the
    /// room is looked up or created (both connections racing for a fresh
    /// identifier converge on the one room kept under it), and the new
    /// session subscribes at the end of that room's history, so it observes
    /// exactly what is published from now on. No history, no other session
    /// and no count changes.
    pub fn connect(&mut self, room_id: i64, user: String) -> (sid: usize)
        requires
            old(self).wf(),
        ensures
            final(self).wf(),
            sid as int == old(self).session_count(),
            final(self).session_count() == old(self).session_count() + 1,
            final(self).session_user(sid as int) == user@,
            final(self).session_room(sid as int) == room_id,
            final(self).session_pos(sid as int) == final(self).room_log(room_id).len(),
            final(self).has_room(room_id),
            final(self).view_count() == old(self).view_count(),
            forall|id: i64| #[trigger] final(self).room_log(id) == old(self).room_log(id),
            forall|s: int|
                0 <= s < old(self).session_count() ==> #[trigger] final(self).session_user(s)
                    == old(self).session_user(s),
            forall|s: int|
                0 <= s < old(self).session_count() ==> #[trigger] final(self).session_room(s)
                    == old(self).session_room(s),
            forall|s: int|
                0 <= s < old(self).session_count() ==> #[trigger] final(self).session_pos(s)
                    == old(self).session_pos(s),
    {
        let i = self.registry.get_or_create(room_id);
        let cursor = self.registry.room_ref(i).subscribe();
        let sid = self.sessions.len();
        self.sessions.push(Session { room_index: i, user, cursor });
        proof {
            let pre = old(self).registry;
            let post = self.registry;
            assert(post.room_at(i as int).spec_id() == room_id);
            assert forall|id: i64| #[trigger] post.log_of(id) == pre.log_of(id) by {
                if pre.contains_id(id) {
                    let w = pre.index_of(id);
                    assert(post.room_at(w) == pre.room_at(w));
                    assert(post.contains_id(id));
                    post.lemma_one_room_per_id(post.index_of(id), w);
                } else if post.contains_id(id) {
                    let w = post.index_of(id);
                    if w < pre.room_count() {
                        assert(pre.room_at(w).spec_id() == id);
                        assert(pre.contains_id(id));
                    } else {
                        assert(w == i as int);
                        assert(post.room_at(w).log() == Seq::<EnvelopeV>::empty());
                    }
                }
            }
            post.lemma_one_room_per_id(post.index_of(room_id), i as int);
            assert(self.session_pos(sid as int) == self.room_log(room_id).len());
            assert forall|s: int|
                #![trigger self.session_user(s)]
                #![trigger self.session_room(s)]
                #![trigger self.session_pos(s)]
                0 <= s < old(self).session_count() implies {
                &&& self.session_user(s) == old(self).session_user(s)
                &&& self.session_room(s) == old(self).session_room(s)
                &&& self.session_pos(s) == old(self).session_pos(s)
            } by {
                assert(self.sessions@[s] == old(self).sessions@[s]);
                assert(post.room_at(old(self).sessions@[s].room_index as int) == pre.room_at(
                    old(self).sessions@[s].room_index as int,
                ));
            }
        }
        sid
    }

    /// The inbound activity's step for one raw text frame from session
    /// `sid`'s client. A frame of the expected JSON shape whose text
    /// respects the length bound is wrapped under the session's user name -
    /// never a name the client supplied - and published to the session's
    /// room, and only there. Any other frame is dropped silently: nothing is
    /// published anywhere, nothing else changes, and the session stays able
    /// to publish.
    pub fn client_frame(&mut self, sid: usize, text_frame: &str) -> (r: InboundOutcome)
        requires
            old(self).wf(),
            (sid as int) < old(self).session_count(),
            old(self).room_log(old(self).session_room(sid as int)).len() < u64::MAX,
        ensures
            final(self).wf(),
            final(self).session_count() == old(self).session_count(),
            final(self).view_count() == old(self).view_count(),
            forall|s: int|
                0 <= s < old(self).session_count() ==> #[trigger] final(self).session_user(s)
                    == old(self).session_user(s),
            forall|s: int|
                0 <= s < old(self).session_count() ==> #[trigger] final(self).session_room(s)
                    == old(self).session_room(s),
            forall|s: int|
                0 <= s < old(self).session_count() ==> #[trigger] final(self).session_pos(s)
                    == old(self).session_pos(s),
            (match accepted_text(text_frame@) {
                Some(t) => {
                    &&& r == InboundOutcome::Published
                    &&& final(self).room_log(old(self).session_room(sid as int)) == old(
                        self,
                    ).room_log(old(self).session_room(sid as int)).push(
                        (EnvelopeV { user: old(self).session_user(sid as int), text: t }),
                    )
                },
                None => r == InboundOutcome::Dropped && *final(self) == *old(self),
            }),
            forall|id: i64|
                id != old(self).session_room(sid as int) ==> #[trigger] final(self).room_log(id)
                    == old(self).room_log(id),
    {
        let env_opt = inbound_envelope(&self.sessions[sid].user, text_frame);
        match env_opt {
            None => InboundOutcome::Dropped,
            Some(env) => {
                proof {
                    self.lemma_session_room_log(sid as int);
                }
                let ri = self.sessions[sid].room_index;
                self.registry.publish_to(ri, env);
                proof {
                    let pre = old(self).registry;
                    let post = self.registry;
                    let sid_room = old(self).session_room(sid as int);
                    assert forall|j: int|
                        0 <= j < pre.room_count() implies (#[trigger] pre.room_at(j)).spec_id()
                        == post.room_at(j).spec_id() by {}
                    assert forall|id: i64|
                        id != sid_room implies #[trigger] post.log_of(id) == pre.log_of(id) by {
                        pre.lemma_lookup_stable(&post, id);
                        if pre.contains_id(id) {
                            let w = pre.index_of(id);
                            assert(w != ri as int);
                        }
                    }
                    pre.lemma_lookup_stable(&post, sid_room);
                    assert(post.log_of(sid_room) == pre.log_of(sid_room).push(env@));
                    assert forall|s: int| 0 <= s < old(self).session_count() implies {
                        &&& (#[trigger] self.sessions@[s]).room_index < post.room_count()
                        &&& 0 <= self.sessions@[s].cursor.pos() <= post.room_at(
                            self.sessions@[s].room_index as int,
                        ).log().len()
                    } by {
                        if self.sessions@[s].room_index as int != ri as int {
                            assert(post.room_at(self.sessions@[s].room_index as int) == pre.room_at(
                                self.sessions@[s].room_index as int,
                            ));
                        }
                    }
                    assert forall|s: int|
                        #![trigger self.session_user(s)]
                        #![trigger self.session_room(s)]
                        #![trigger self.session_pos(s)]
                        0 <= s < old(self).session_count() implies {
                        &&& self.session_user(s) == old(self).session_user(s)
                        &&& self.session_room(s) == old(self).session_room(s)
                        &&& self.session_pos(s) == old(self).session_pos(s)
                    } by {}
                }
                InboundOutcome::Published
            },
        }
    }

    /// The outbound activity's step for session `sid`: deliver the next
    /// envelope of its room - its own publishes included - serialized in the
    /// wire shape, counting exactly one view per delivery; report a lag
    /// (skipping forward, counting nothing) when the session fell behind by
    /// more than the room buffers; report idle when it has seen everything.
    /// No history, no other session and no other room changes.
    pub fn poll_outbound(&mut self, sid: usize) -> (r: OutboundEvent)
        requires
            old(self).wf(),
            (sid as int) < old(self).session_count(),
            old(self).view_count() < u64::MAX,
        ensures
            final(self).wf(),
            final(self).session_count() == old(self).session_count(),
            final(self).session_user(sid as int) == old(self).session_user(sid as int),
            final(self).session_room(sid as int) == old(self).session_room(sid as int),
            forall|id: i64| #[trigger] final(self).room_log(id) == old(self).room_log(id),
            forall|s: int|
                0 <= s < old(self).session_count() && s != sid as int
                    ==> #[trigger] final(self).session_user(s) == old(self).session_user(s),
            forall|s: int|
                0 <= s < old(self).session_count() && s != sid as int
                    ==> #[trigger] final(self).session_room(s) == old(self).session_room(s),
            forall|s: int|
                0 <= s < old(self).session_count() && s != sid as int
                    ==> #[trigger] final(self).session_pos(s) == old(self).session_pos(s),
            ({
                let log = old(self).room_log(old(self).session_room(sid as int));
                let p = old(self).session_pos(sid as int);
                match r {
                    OutboundEvent::Delivered(w) => {
                        &&& first_retained_of(log.len() as int) <= p < log.len()
                        &&& w@ == wire_of(log[p].user, log[p].text)
                        &&& final(self).session_pos(sid as int) == p + 1
                        &&& final(self).view_count() == old(self).view_count() + 1
                    },
                    OutboundEvent::Lagged => {
                        &&& p < first_retained_of(log.len() as int)
                        &&& final(self).session_pos(sid as int) == first_retained_of(log.len() as int)
                        &&& final(self).view_count() == old(self).view_count()
                    },
                    OutboundEvent::Idle => {
                        &&& p == log.len()
                        &&& final(self).session_pos(sid as int) == p
                        &&& final(self).view_count() == old(self).view_count()
                    },
                }
            }),
    {
        proof {
            self.lemma_session_room_log(sid as int);
        }
        let ri = self.sessions[sid].room_index;
        let mut cur = self.sessions[sid].cursor;
        let d = self.registry.room_ref(ri).receive(&mut cur);
        {
            let s = &mut self.sessions[sid];
            s.cursor = cur;
        }
        proof {
            assert forall|s: int|
                #![trigger self.session_user(s)]
                #![trigger self.session_room(s)]
                #![trigger self.session_pos(s)]
                0 <= s < old(self).session_count() && s != sid as int implies {
                &&& self.session_user(s) == old(self).session_user(s)
                &&& self.session_room(s) == old(self).session_room(s)
                &&& self.session_pos(s) == old(self).session_pos(s)
            } by {
                assert(self.sessions@[s] == old(self).sessions@[s]);
            }
        }
        match d {
            Delivery::Ready(env) => {
                let w = env.to_wire();
                self.views.increment();
                OutboundEvent::Delivered(w)
            },
            Delivery::Lagged => OutboundEvent::Lagged,
            Delivery::Pending => OutboundEvent::Idle,
        }
    }

    /// How many envelopes the room of session `sid` has ever carried.
    pub fn room_published(&self, sid: usize) -> (n: u64)
        requires
            self.wf(),
            (sid as int) < self.session_count(),
        ensures
            n == self.room_log(self.session_room(sid as int)).len(),
    {
        proof {
            self.lemma_session_room_log(sid as int);
        }
        let ri = self.sessions[sid].room_index;
        self.registry.room_ref(ri).published_count()
    }

    /// The current view count, as a request/response read.
    pub fn read_views(&self) -> (n: u64)
        ensures
            n == self.view_count(),
    {
        self.views.read()
    }

    /// Administrative reset of the view counter; rooms and sessions are
    /// untouched.
    pub fn reset_views(&mut self)
        requires
            old(self).wf(),
        ensures
            final(self).wf(),
            final(self).view_count() == 0,
            final(self).session_count() == old(self).session_count(),
            forall|id: i64| #[trigger] final(self).room_log(id) == old(self).room_log(id),
            forall|s: int|
                0 <= s < old(self).session_count() ==> #[trigger] final(self).session_user(s)
                    == old(self).session_user(s),
            forall|s: int|
                0 <= s < old(self).session_count() ==> #[trigger] final(self).session_room(s)
                    == old(self).session_room(s),
            forall|s: int|
                0 <= s < old(self).session_count() ==> #[trigger] final(self).session_pos(s)
                    == old(self).session_pos(s),
    {
        self.views.reset();
    }
}

} // verus!
