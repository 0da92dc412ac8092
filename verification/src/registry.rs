//! Session registry: the mapping from session key to broadcast hub.
//!
//! The registry owns every hub. Resolving a key returns the room index of
//! the existing hub for that key, or creates one — creation is idempotent:
//! at most one hub ever exists per distinct key. Hub teardown is
//! deliberately deterministic: a room, once created, is retained for the
//! life of the registry, so room indices stay valid for every connection
//! that holds one.

use vstd::prelude::*;

use crate::hub::{
    empty_hub, hub_wf, spec_publish, spec_recv, spec_subscribe, spec_unsubscribe, Hub, HubModel,
};
use crate::session::{key_wf, KeyModel, SessionKey};

verus! {

/// Model of one room: its key and the hub serving it.
#[verifier::ext_equal]
pub ghost struct RoomModel {
    pub key: KeyModel,
    pub hub: HubModel,
}

struct Room {
    key: SessionKey,
    hub: Hub,
}

impl View for Room {
    type V = RoomModel;

    closed spec fn view(&self) -> RoomModel {
        RoomModel { key: self.key@, hub: self.hub@ }
    }
}

impl DeepView for Room {
    type V = RoomModel;

    open spec fn deep_view(&self) -> RoomModel {
        self.view()
    }
}

/// The registry of all live rooms.
pub struct Registry {
    rooms: Vec<Room>,
}

impl View for Registry {
    type V = Seq<RoomModel>;

    closed spec fn view(&self) -> Seq<RoomModel> {
        self.rooms.deep_view()
    }
}

/// Well-formed registry: every key is valid, no two rooms share a key,
/// and every hub is well-formed.
pub open spec fn reg_wf(r: Seq<RoomModel>) -> bool {
    &&& forall|i: int| 0 <= i < r.len() ==> key_wf(#[trigger] r[i].key)
    &&& forall|i: int, j: int|
        #![trigger r[i].key, r[j].key]
        0 <= i < j < r.len() ==> r[i].key != r[j].key
    &&& forall|i: int| 0 <= i < r.len() ==> hub_wf(#[trigger] r[i].hub)
}

/// Whether some room serves this key.
pub open spec fn has_room(r: Seq<RoomModel>, k: KeyModel) -> bool {
    exists|i: int| 0 <= i < r.len() && r[i].key == k
}

/// Index of the room serving this key (meaningful when `has_room(r, k)`
/// and keys are distinct).
pub open spec fn room_index(r: Seq<RoomModel>, k: KeyModel) -> int {
    choose|i: int| 0 <= i < r.len() && r[i].key == k
}

/// Resolving a key: the existing room's index, or a fresh room with an
/// empty hub appended at the end.
pub open spec fn spec_resolve(r: Seq<RoomModel>, k: KeyModel) -> (Seq<RoomModel>, int) {
    if has_room(r, k) {
        (r, room_index(r, k))
    } else {
        (r.push(RoomModel { key: k, hub: empty_hub() }), r.len() as int)
    }
}

/// With distinct keys, any index holding `k` is the index `room_index`
/// picks.
pub proof fn lemma_room_index_unique(r: Seq<RoomModel>, k: KeyModel, i: int)
    requires
        reg_wf(r),
        0 <= i < r.len(),
        r[i].key == k,
    ensures
        has_room(r, k),
        room_index(r, k) == i,
{
    assert(has_room(r, k));
    let j = room_index(r, k);
    if i != j {
        assert(r[i].key != r[j].key);
    }
}

/// Hub creation is idempotent: once a key has been resolved, resolving it
/// again returns the same room and creates nothing, however many callers
/// race to join a brand-new key — in every serialization all of them end
/// up at the one hub the first created.
pub proof fn lemma_resolve_idempotent(r: Seq<RoomModel>, k: KeyModel)
    requires
        reg_wf(r),
        key_wf(k),
    ensures
        ({
            let (r1, i1) = spec_resolve(r, k);
            let (r2, i2) = spec_resolve(r1, k);
            r2 == r1 && i2 == i1 && reg_wf(r1) && 0 <= i1 < r1.len() && r1[i1].key == k
        }),
{
    let (r1, i1) = spec_resolve(r, k);
    if has_room(r, k) {
        let i = room_index(r, k);
        assert(0 <= i < r.len() && r[i].key == k);
        lemma_room_index_unique(r1, k, i1);
    } else {
        assert(r1[r.len() as int].key == k);
        assert forall|i: int, j: int|
            #![trigger r1[i].key, r1[j].key]
            0 <= i < j < r1.len() implies r1[i].key != r1[j].key by {
            if j == r.len() as int {
                assert(!(0 <= i < r.len() && r[i].key == k));
            }
        }
        lemma_room_index_unique(r1, k, r.len() as int);
    }
}

/// Updating one room's hub to a well-formed hub keeps the registry
/// well-formed.
proof fn lemma_update_room_wf(r: Seq<RoomModel>, i: int, h2: HubModel)
    requires
        reg_wf(r),
        0 <= i < r.len(),
        hub_wf(h2),
    ensures
        reg_wf(r.update(i, RoomModel { key: r[i].key, hub: h2 })),
{
    let r2 = r.update(i, RoomModel { key: r[i].key, hub: h2 });
    assert forall|a: int, b: int|
        #![trigger r2[a].key, r2[b].key]
        0 <= a < b < r2.len() implies r2[a].key != r2[b].key by {
        assert(r2[a].key == r[a].key);
        assert(r2[b].key == r[b].key);
    }
}

impl Registry {
    /// A registry with no rooms.
    pub fn new() -> (r: Registry)
        ensures
            r@ == Seq::<RoomModel>::empty(),
            reg_wf(r@),
    {
        let r = Registry { rooms: Vec::new() };
        proof {
            assert(r@ =~= Seq::<RoomModel>::empty());
        }
        r
    }

    pub fn room_count(&self) -> (n: usize)
        ensures
            n == self@.len(),
    {
        self.rooms.len()
    }

    /// Return the room serving `key`, creating it on first join. Closes
    /// the check-then-act race by re-deciding existence and insertion
    /// against the same exclusively held state.
    pub fn resolve_or_create(&mut self, key: SessionKey) -> (idx: usize)
        requires
            reg_wf(old(self)@),
            key_wf(key@),
            old(self)@.len() < usize::MAX,
        ensures
            reg_wf(final(self)@),
            final(self)@ == spec_resolve(old(self)@, key@).0,
            idx as int == spec_resolve(old(self)@, key@).1,
            idx < final(self)@.len(),
            final(self)@[idx as int].key == key@,
    {
        let n = self.rooms.len();
        for i in 0..n
            invariant
                n == self.rooms@.len(),
                self@ == old(self)@,
                reg_wf(old(self)@),
                forall|k: int| 0 <= k < i ==> #[trigger] old(self)@[k].key != key@,
        {
            if self.rooms[i].key.same_session(&key) {
                proof {
                    assert(self.rooms@[i as int]@.key == key@);
                    lemma_room_index_unique(old(self)@, key@, i as int);
                }
                return i;
            }
        }
        proof {
            assert(!has_room(old(self)@, key@));
        }
        let idx = self.rooms.len();
        self.rooms.push(Room { key, hub: Hub::new() });
        proof {
            assert(self@ =~~= spec_resolve(old(self)@, key@).0);
            lemma_resolve_idempotent(old(self)@, key@);
            assert(reg_wf(self@));
        }
        idx
    }

    /// Attach a new subscription in the given room; every other room is
    /// untouched.
    pub fn subscribe_in(&mut self, room: usize) -> (r: Option<u64>)
        requires
            reg_wf(old(self)@),
            room < old(self)@.len(),
        ensures
            reg_wf(final(self)@),
            final(self)@.len() == old(self)@.len(),
            forall|j: int|
                0 <= j < old(self)@.len() && j != room ==> final(self)@[j] == #[trigger] old(
                    self,
                )@[j],
            final(self)@[room as int].key == old(self)@[room as int].key,
            old(self)@[room as int].hub.next_id < u64::MAX ==> r == Some(
                old(self)@[room as int].hub.next_id,
            ) && final(self)@[room as int].hub == spec_subscribe(old(self)@[room as int].hub),
            old(self)@[room as int].hub.next_id == u64::MAX ==> r is None && final(self)@ == old(
                self,
            )@,
    {
        let ghost r0 = self@[room as int];
        proof {
            assert(hub_wf(r0.hub));
        }
        let slot = &mut self.rooms[room];
        proof {
            assert(slot@ == r0);
            assert(slot.hub@ == r0.hub);
        }
        let r = slot.hub.subscribe();
        proof {
            assert(slot@ =~~= RoomModel { key: r0.key, hub: slot.hub@ });
            lemma_update_room_wf(old(self)@, room as int, slot.hub@);
            assert(self@ =~~= old(self)@.update(room as int, slot@));
            if r0.hub.next_id == u64::MAX {
                assert(self@ =~~= old(self)@);
            }
        }
        r
    }

    /// Publish a payload in the given room on behalf of subscription
    /// `from`; no other room observes anything — sessions are isolated.
    pub fn publish_in(&mut self, room: usize, payload: &Vec<u8>, from: u64)
        requires
            reg_wf(old(self)@),
            room < old(self)@.len(),
        ensures
            reg_wf(final(self)@),
            final(self)@.len() == old(self)@.len(),
            forall|j: int|
                0 <= j < old(self)@.len() && j != room ==> final(self)@[j] == #[trigger] old(
                    self,
                )@[j],
            final(self)@[room as int].key == old(self)@[room as int].key,
            final(self)@[room as int].hub == spec_publish(
                old(self)@[room as int].hub,
                payload@,
                from,
            ),
    {
        let ghost r0 = self@[room as int];
        proof {
            assert(hub_wf(r0.hub));
        }
        let slot = &mut self.rooms[room];
        proof {
            assert(slot@ == r0);
            assert(slot.hub@ == r0.hub);
        }
        slot.hub.publish(payload, from);
        proof {
            assert(slot@ =~~= RoomModel { key: r0.key, hub: slot.hub@ });
            lemma_update_room_wf(old(self)@, room as int, slot.hub@);
            assert(self@ =~~= old(self)@.update(room as int, slot@));
        }
    }

    /// Take the oldest pending payload for a subscription in the given
    /// room; every other room is untouched.
    pub fn recv_in(&mut self, room: usize, id: u64) -> (r: Option<Vec<u8>>)
        requires
            reg_wf(old(self)@),
            room < old(self)@.len(),
        ensures
            reg_wf(final(self)@),
            final(self)@.len() == old(self)@.len(),
            forall|j: int|
                0 <= j < old(self)@.len() && j != room ==> final(self)@[j] == #[trigger] old(
                    self,
                )@[j],
            final(self)@[room as int].key == old(self)@[room as int].key,
            final(self)@[room as int].hub == spec_recv(old(self)@[room as int].hub, id).0,
            r.deep_view() == spec_recv(old(self)@[room as int].hub, id).1,
    {
        let ghost r0 = self@[room as int];
        proof {
            assert(hub_wf(r0.hub));
        }
        let slot = &mut self.rooms[room];
        proof {
            assert(slot@ == r0);
            assert(slot.hub@ == r0.hub);
        }
        let r = slot.hub.recv(id);
        proof {
            assert(slot@ =~~= RoomModel { key: r0.key, hub: slot.hub@ });
            lemma_update_room_wf(old(self)@, room as int, slot.hub@);
            assert(self@ =~~= old(self)@.update(room as int, slot@));
        }
        r
    }

    /// Detach a subscription in the given room; every other room, and
    /// every other subscription of the same room, is untouched.
    pub fn unsubscribe_in(&mut self, room: usize, id: u64)
        requires
            reg_wf(old(self)@),
            room < old(self)@.len(),
        ensures
            reg_wf(final(self)@),
            final(self)@.len() == old(self)@.len(),
            forall|j: int|
                0 <= j < old(self)@.len() && j != room ==> final(self)@[j] == #[trigger] old(
                    self,
                )@[j],
            final(self)@[room as int].key == old(self)@[room as int].key,
            final(self)@[room as int].hub == spec_unsubscribe(old(self)@[room as int].hub, id),
    {
        let ghost r0 = self@[room as int];
        proof {
            assert(hub_wf(r0.hub));
        }
        let slot = &mut self.rooms[room];
        proof {
            assert(slot@ == r0);
            assert(slot.hub@ == r0.hub);
        }
        slot.hub.unsubscribe(id);
        proof {
            assert(slot@ =~~= RoomModel { key: r0.key, hub: slot.hub@ });
            lemma_update_room_wf(old(self)@, room as int, slot.hub@);
            assert(self@ =~~= old(self)@.update(room as int, slot@));
        }
    }
}

} // verus!
