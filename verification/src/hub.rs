//! Broadcast hub: the per-session fan-out channel.
//!
//! A hub owns a set of subscriptions. Publishing a payload appends it to the
//! pending queue of every subscription except the publisher's own, so a
//! participant never sees its own update echoed back. Each queue is bounded
//! by [`HUB_CAPACITY`]; when a slow subscriber's queue is full, the oldest
//! pending payload is dropped to make room (drop-oldest policy). A
//! subscription created after a publish starts with an empty queue: there is
//! no replay for late joiners.

use vstd::prelude::*;

verus! {

/// Number of update payloads one subscription buffers before the oldest
/// pending payload is dropped.
pub const HUB_CAPACITY: usize = 256;

/// Model of one subscription: its identifier and the queue of payloads
/// delivered to it but not yet consumed. The front of the queue is oldest.
#[verifier::ext_equal]
pub ghost struct SubModel {
    pub id: u64,
    pub queue: Seq<Seq<u8>>,
}

/// Model of a hub: the attached subscriptions in order of attachment, and
/// the identifier the next subscription will receive.
#[verifier::ext_equal]
pub ghost struct HubModel {
    pub subs: Seq<SubModel>,
    pub next_id: u64,
}

/// Well-formed hub: subscription identifiers are distinct and below
/// `next_id`, and every queue respects the capacity bound.
pub open spec fn hub_wf(h: HubModel) -> bool {
    &&& forall|i: int, j: int|
        #![trigger h.subs[i].id, h.subs[j].id]
        0 <= i < j < h.subs.len() ==> h.subs[i].id != h.subs[j].id
    &&& forall|i: int| 0 <= i < h.subs.len() ==> (#[trigger] h.subs[i].id) < h.next_id
    &&& forall|i: int| 0 <= i < h.subs.len() ==> (#[trigger] h.subs[i].queue).len() <= HUB_CAPACITY
}

pub open spec fn empty_hub() -> HubModel {
    HubModel { subs: Seq::empty(), next_id: 0 }
}

/// Whether a subscription with this identifier is attached.
pub open spec fn has_sub(h: HubModel, id: u64) -> bool {
    exists|i: int| 0 <= i < h.subs.len() && h.subs[i].id == id
}

/// Index of the subscription with this identifier (meaningful when
/// `has_sub(h, id)` and identifiers are distinct).
pub open spec fn sub_index(h: HubModel, id: u64) -> int {
    choose|i: int| 0 <= i < h.subs.len() && h.subs[i].id == id
}

/// Attaching a subscription: it gets the next identifier and an empty queue.
pub open spec fn spec_subscribe(h: HubModel) -> HubModel {
    HubModel {
        subs: h.subs.push(SubModel { id: h.next_id, queue: Seq::empty() }),
        next_id: (h.next_id + 1) as u64,
    }
}

/// Effect of one publish on one subscription: the publisher's own queue is
/// untouched; any other queue receives the payload at the back, dropping its
/// oldest entry first when it is full.
pub open spec fn spec_deliver(s: SubModel, payload: Seq<u8>, from: u64) -> SubModel {
    if s.id == from {
        s
    } else if s.queue.len() < HUB_CAPACITY {
        SubModel { id: s.id, queue: s.queue.push(payload) }
    } else {
        SubModel { id: s.id, queue: s.queue.drop_first().push(payload) }
    }
}

/// Publishing a payload delivers it to every subscription but the
/// publisher's own.
pub open spec fn spec_publish(h: HubModel, payload: Seq<u8>, from: u64) -> HubModel {
    HubModel {
        subs: h.subs.map_values(|s: SubModel| spec_deliver(s, payload, from)),
        next_id: h.next_id,
    }
}

/// Detaching a subscription removes exactly its entry; absent identifiers
/// leave the hub unchanged.
pub open spec fn spec_unsubscribe(h: HubModel, id: u64) -> HubModel {
    if has_sub(h, id) {
        HubModel { subs: h.subs.remove(sub_index(h, id)), next_id: h.next_id }
    } else {
        h
    }
}

/// Consuming one payload: the front of the identified subscription's queue,
/// if any, leaves that queue; everything else is unchanged.
pub open spec fn spec_recv(h: HubModel, id: u64) -> (HubModel, Option<Seq<u8>>) {
    if has_sub(h, id) && h.subs[sub_index(h, id)].queue.len() > 0 {
        let i = sub_index(h, id);
        let s = h.subs[i];
        (
            HubModel {
                subs: h.subs.update(i, SubModel { id: s.id, queue: s.queue.drop_first() }),
                next_id: h.next_id,
            },
            Some(s.queue.first()),
        )
    } else {
        (h, None)
    }
}

struct Subscriber {
    id: u64,
    queue: Vec<Vec<u8>>,
}

impl View for Subscriber {
    type V = SubModel;

    closed spec fn view(&self) -> SubModel {
        SubModel { id: self.id, queue: self.queue.deep_view() }
    }
}

/// The per-session fan-out channel.
pub struct Hub {
    subs: Vec<Subscriber>,
    next_id: u64,
}

impl View for Hub {
    type V = HubModel;

    closed spec fn view(&self) -> HubModel {
        HubModel { subs: self.subs.deep_view(), next_id: self.next_id }
    }
}

impl DeepView for Subscriber {
    type V = SubModel;

    open spec fn deep_view(&self) -> SubModel {
        self.view()
    }
}

/// Byte-for-byte copy of a payload.
fn clone_payload(v: &Vec<u8>) -> (r: Vec<u8>)
    ensures
        r@ == v@,
{
    let mut r: Vec<u8> = Vec::new();
    let n = v.len();
    for i in 0..n
        invariant
            n == v@.len(),
            r@ == v@.subrange(0, i as int),
    {
        r.push(v[i]);
        proof {
            assert(r@ =~= v@.subrange(0, i + 1));
        }
    }
    proof {
        assert(r@ =~= v@);
    }
    r
}

impl Hub {
    /// A hub with no subscriptions.
    pub fn new() -> (h: Hub)
        ensures
            h@ == empty_hub(),
            hub_wf(h@),
    {
        let h = Hub { subs: Vec::new(), next_id: 0 };
        proof {
            assert(h@ =~~= empty_hub());
        }
        h
    }

    pub fn sub_count(&self) -> (n: usize)
        ensures
            n == self@.subs.len(),
    {
        self.subs.len()
    }

    /// Attach a new subscription and return its identifier. Fails only when
    /// the identifier space is exhausted.
    pub fn subscribe(&mut self) -> (r: Option<u64>)
        requires
            hub_wf(old(self)@),
        ensures
            hub_wf(final(self)@),
            old(self)@.next_id < u64::MAX ==> r == Some(old(self)@.next_id) && final(self)@
                == spec_subscribe(old(self)@),
            old(self)@.next_id == u64::MAX ==> r is None && final(self)@ == old(self)@,
    {
        if self.next_id == u64::MAX {
            return None;
        }
        let id = self.next_id;
        self.subs.push(Subscriber { id, queue: Vec::new() });
        self.next_id = id + 1;
        proof {
            assert(final(self)@.subs =~~= spec_subscribe(old(self)@).subs);
            assert(final(self)@ =~~= spec_subscribe(old(self)@));
        }
        Some(id)
    }

    /// Deliver a payload to every subscription except the publisher's own.
    pub fn publish(&mut self, payload: &Vec<u8>, from: u64)
        requires
            hub_wf(old(self)@),
        ensures
            final(self)@ == spec_publish(old(self)@, payload@, from),
            hub_wf(final(self)@),
    {
        let ghost target = spec_publish(old(self)@, payload@, from);
        let n = self.subs.len();
        for i in 0..n
            invariant
                n == self.subs@.len(),
                n == old(self)@.subs.len(),
                self.next_id == old(self)@.next_id,
                forall|k: int|
                    0 <= k < i ==> #[trigger] self.subs@[k]@ == spec_deliver(
                        old(self)@.subs[k],
                        payload@,
                        from,
                    ),
                forall|k: int| i <= k < n ==> #[trigger] self.subs@[k]@ == old(self)@.subs[k],
                hub_wf(old(self)@),
        {
            let ghost s0 = self.subs@[i as int]@;
            proof {
                assert(s0 == old(self)@.subs[i as int]);
            }
            let sub = &mut self.subs[i];
            proof {
                assert(sub@ == s0);
            }
            if sub.id != from {
                if sub.queue.len() == HUB_CAPACITY {
                    sub.queue.remove(0);
                    proof {
                        assert(sub@.queue =~~= s0.queue.drop_first());
                    }
                }
                sub.queue.push(clone_payload(payload));
                proof {
                    assert(sub@.queue =~~= spec_deliver(s0, payload@, from).queue);
                    assert(sub@ =~~= spec_deliver(s0, payload@, from));
                }
            } else {
                proof {
                    assert(sub@ =~~= spec_deliver(s0, payload@, from));
                }
            }
        }
        proof {
            assert(self@.subs =~~= target.subs);
            assert(self@ =~~= target);
            lemma_publish_preserves_wf(old(self)@, payload@, from);
        }
    }

    /// Take the oldest pending payload for this subscription, if any.
    pub fn recv(&mut self, id: u64) -> (r: Option<Vec<u8>>)
        requires
            hub_wf(old(self)@),
        ensures
            hub_wf(final(self)@),
            final(self)@ == spec_recv(old(self)@, id).0,
            r.deep_view() == spec_recv(old(self)@, id).1,
    {
        let n = self.subs.len();
        for i in 0..n
            invariant
                n == self.subs@.len(),
                self@ == old(self)@,
                hub_wf(old(self)@),
                forall|k: int| 0 <= k < i ==> #[trigger] old(self)@.subs[k].id != id,
        {
            if self.subs[i].id == id {
                let ghost s0 = self.subs@[i as int]@;
                proof {
                    assert(s0 == old(self)@.subs[i as int]);
                    assert(s0.id == id);
                    lemma_sub_index_unique(old(self)@, id, i as int);
                }
                let sub = &mut self.subs[i];
                proof {
                    assert(sub@ == s0);
                }
                if sub.queue.len() > 0 {
                    let msg = sub.queue.remove(0);
                    proof {
                        assert(msg.deep_view() == s0.queue.first());
                        assert(sub@.queue =~~= s0.queue.drop_first());
                        assert(self@.subs =~~= spec_recv(old(self)@, id).0.subs);
                        assert(self@ =~~= spec_recv(old(self)@, id).0);
                    }
                    return Some(msg);
                } else {
                    proof {
                        assert(self@ =~~= old(self)@);
                    }
                    return None;
                }
            }
        }
        proof {
            assert(!has_sub(old(self)@, id));
        }
        None
    }

    /// Detach a subscription; other subscriptions are unaffected.
    pub fn unsubscribe(&mut self, id: u64)
        requires
            hub_wf(old(self)@),
        ensures
            hub_wf(final(self)@),
            final(self)@ == spec_unsubscribe(old(self)@, id),
    {
        let n = self.subs.len();
        for i in 0..n
            invariant
                n == self.subs@.len(),
                self@ == old(self)@,
                hub_wf(old(self)@),
                forall|k: int| 0 <= k < i ==> #[trigger] old(self)@.subs[k].id != id,
        {
            if self.subs[i].id == id {
                proof {
                    assert(self.subs@[i as int]@.id == id);
                    assert(old(self)@.subs[i as int].id == id);
                    lemma_sub_index_unique(old(self)@, id, i as int);
                }
                self.subs.remove(i);
                proof {
                    assert(self@.subs =~~= spec_unsubscribe(old(self)@, id).subs);
                    assert(self@ =~~= spec_unsubscribe(old(self)@, id));
                }
                return ;
            }
        }
        proof {
            assert(!has_sub(old(self)@, id));
        }
    }
}

/// With distinct identifiers, any index holding `id` is the index
/// `sub_index` picks.
pub proof fn lemma_sub_index_unique(h: HubModel, id: u64, i: int)
    requires
        hub_wf(h),
        0 <= i < h.subs.len(),
        h.subs[i].id == id,
    ensures
        has_sub(h, id),
        sub_index(h, id) == i,
{
    assert(has_sub(h, id));
    let j = sub_index(h, id);
    assert(0 <= j < h.subs.len() && h.subs[j].id == id);
    if i != j {
        assert(h.subs[i].id != h.subs[j].id);
    }
}

/// Subscribing preserves well-formedness; the new subscription has the next
/// identifier and an empty queue, and no other subscription changes. In
/// particular a late joiner's queue holds none of the payloads published
/// before it attached: there is no replay.
pub proof fn lemma_subscribe_no_replay(h: HubModel)
    requires
        hub_wf(h),
        h.next_id < u64::MAX,
    ensures
        hub_wf(spec_subscribe(h)),
        spec_subscribe(h).subs.len() == h.subs.len() + 1,
        spec_subscribe(h).subs.last().id == h.next_id,
        spec_subscribe(h).subs.last().queue == Seq::<Seq<u8>>::empty(),
        forall|k: int| 0 <= k < h.subs.len() ==> spec_subscribe(h).subs[k] == h.subs[k],
{
}

/// Publishing preserves well-formedness: in particular every queue stays
/// within [`HUB_CAPACITY`], whatever is published and however often, so a
/// subscriber that never reads cannot cause unbounded growth.
pub proof fn lemma_publish_preserves_wf(h: HubModel, payload: Seq<u8>, from: u64)
    requires
        hub_wf(h),
    ensures
        hub_wf(spec_publish(h, payload, from)),
        forall|i: int|
            0 <= i < spec_publish(h, payload, from).subs.len() ==> (#[trigger] spec_publish(
                h,
                payload,
                from,
            ).subs[i].queue).len() <= HUB_CAPACITY,
{
    let h2 = spec_publish(h, payload, from);
    assert forall|i: int| 0 <= i < h2.subs.len() implies (#[trigger] h2.subs[i].queue).len()
        <= HUB_CAPACITY by {
        assert(h2.subs[i] == spec_deliver(h.subs[i], payload, from));
    }
    assert forall|i: int| 0 <= i < h2.subs.len() implies (#[trigger] h2.subs[i].id) < h2.next_id by {
        assert(h2.subs[i] == spec_deliver(h.subs[i], payload, from));
    }
    assert forall|i: int, j: int|
        #![trigger h2.subs[i].id, h2.subs[j].id]
        0 <= i < j < h2.subs.len() implies h2.subs[i].id != h2.subs[j].id by {
        assert(h2.subs[i] == spec_deliver(h.subs[i], payload, from));
        assert(h2.subs[j] == spec_deliver(h.subs[j], payload, from));
    }
}

/// A publish reaches every other subscription and never the publisher's
/// own: afterwards every queue of a subscription with a different
/// identifier ends with the payload, and a subscription with the
/// publisher's identifier is untouched.
pub proof fn lemma_publish_delivers(h: HubModel, payload: Seq<u8>, from: u64, i: int)
    requires
        hub_wf(h),
        0 <= i < h.subs.len(),
    ensures
        h.subs[i].id != from ==> {
            let q = spec_publish(h, payload, from).subs[i].queue;
            q.len() > 0 && q.last() == payload
        },
        h.subs[i].id == from ==> spec_publish(h, payload, from).subs[i] == h.subs[i],
{
    assert(spec_publish(h, payload, from).subs[i] == spec_deliver(h.subs[i], payload, from));
}

/// Detaching one subscription leaves every other subscription attached,
/// with its identifier and pending queue intact, so delivery among the
/// remaining participants is undisturbed.
pub proof fn lemma_unsubscribe_preserves_others(h: HubModel, id: u64, other: u64)
    requires
        hub_wf(h),
        has_sub(h, other),
        other != id,
    ensures
        hub_wf(spec_unsubscribe(h, id)),
        has_sub(spec_unsubscribe(h, id), other),
        spec_unsubscribe(h, id).subs[sub_index(spec_unsubscribe(h, id), other)].queue == h.subs[
            sub_index(h, other)
        ].queue,
{
    let h2 = spec_unsubscribe(h, id);
    lemma_unsubscribe_preserves_wf(h, id);
    let k = sub_index(h, other);
    assert(0 <= k < h.subs.len() && h.subs[k].id == other);
    if has_sub(h, id) {
        let r = sub_index(h, id);
        assert(0 <= r < h.subs.len() && h.subs[r].id == id);
        assert(k != r);
        if k < r {
            assert(h2.subs[k] == h.subs[k]);
            lemma_sub_index_unique(h2, other, k);
        } else {
            assert(h2.subs[k - 1] == h.subs[k]);
            lemma_sub_index_unique(h2, other, k - 1);
        }
    } else {
        lemma_sub_index_unique(h2, other, k);
    }
}

/// For one subscriber the order of publishes is kept: after two
/// successive publishes that fit its buffer, its queue ends with the two
/// payloads in publish order.
pub proof fn lemma_publish_order(h: HubModel, p1: Seq<u8>, p2: Seq<u8>, from: u64, i: int)
    requires
        hub_wf(h),
        0 <= i < h.subs.len(),
        h.subs[i].id != from,
        h.subs[i].queue.len() + 2 <= HUB_CAPACITY,
    ensures
        ({
            let q = spec_publish(spec_publish(h, p1, from), p2, from).subs[i].queue;
            q.len() >= 2 && q[q.len() - 2] == p1 && q.last() == p2
        }),
{
    let h2 = spec_publish(h, p1, from);
    lemma_publish_preserves_wf(h, p1, from);
    assert(h2.subs[i] == spec_deliver(h.subs[i], p1, from));
    assert(spec_publish(h2, p2, from).subs[i] == spec_deliver(h2.subs[i], p2, from));
}

/// Losing one participant does not disturb delivery among the rest: after
/// a subscription is detached, a publish by any remaining participant
/// still reaches every other remaining subscription.
pub proof fn lemma_disconnect_then_publish(
    h: HubModel,
    gone: u64,
    payload: Seq<u8>,
    from: u64,
    to: u64,
)
    requires
        hub_wf(h),
        has_sub(h, to),
        to != gone,
        to != from,
    ensures
        ({
            let h2 = spec_unsubscribe(h, gone);
            let q = spec_publish(h2, payload, from).subs[sub_index(h2, to)].queue;
            has_sub(h2, to) && q.len() > 0 && q.last() == payload
        }),
{
    lemma_unsubscribe_preserves_others(h, gone, to);
    let h2 = spec_unsubscribe(h, gone);
    let i = sub_index(h2, to);
    assert(0 <= i < h2.subs.len() && h2.subs[i].id == to);
    lemma_publish_delivers(h2, payload, from, i);
}

/// Detaching preserves well-formedness.
pub proof fn lemma_unsubscribe_preserves_wf(h: HubModel, id: u64)
    requires
        hub_wf(h),
    ensures
        hub_wf(spec_unsubscribe(h, id)),
{
    if has_sub(h, id) {
        let r = sub_index(h, id);
        assert(0 <= r < h.subs.len() && h.subs[r].id == id);
        let h2 = spec_unsubscribe(h, id);
        assert forall|i: int, j: int|
            #![trigger h2.subs[i].id, h2.subs[j].id]
            0 <= i < j < h2.subs.len() implies h2.subs[i].id != h2.subs[j].id by {
            let i0 = if i < r { i } else { i + 1 };
            let j0 = if j < r { j } else { j + 1 };
            assert(h2.subs[i] == h.subs[i0]);
            assert(h2.subs[j] == h.subs[j0]);
        }
        assert forall|i: int| 0 <= i < h2.subs.len() implies (#[trigger] h2.subs[i].id)
            < h2.next_id by {
            let i0 = if i < r { i } else { i + 1 };
            assert(h2.subs[i] == h.subs[i0]);
        }
        assert forall|i: int| 0 <= i < h2.subs.len() implies (#[trigger] h2.subs[i].queue).len()
            <= HUB_CAPACITY by {
            let i0 = if i < r { i } else { i + 1 };
            assert(h2.subs[i] == h.subs[i0]);
        }
    }
}

} // verus!
