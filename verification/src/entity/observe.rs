//! Change observation for entities.
//!
//! Observers subscribe to an entity; updates mark the entity as changed, and
//! the observers of every changed entity are notified, once each, when the
//! pending changes are flushed at a frame boundary.

use vstd::prelude::*;
use std::collections::HashMap;
use crate::entity::EntityId;
use crate::entity::subscription::{entity_key, key_of, lemma_entity_key_injective};

verus! {

/// Unique identifier for a subscription.
#[derive(Debug, Clone, Copy, PartialEq, Eq, Hash, Structural)]
pub struct SubscriptionId(pub u64);

impl SubscriptionId {
    /// Wrap a raw subscription number.
    pub fn new(value: u64) -> (r: Self)
        ensures
            r.0 == value,
    {
        SubscriptionId(value)
    }
}

/// A registered observer.
struct Observer<C> {
    entity: EntityId,
    id: SubscriptionId,
    callback: C,
}

spec fn obs_pair<C>(o: Observer<C>) -> (EntityId, SubscriptionId) {
    (o.entity, o.id)
}

spec fn pairs<C>(v: Seq<Observer<C>>) -> Seq<(EntityId, SubscriptionId)> {
    v.map_values(|o: Observer<C>| obs_pair(o))
}

spec fn callbacks_of<C>(v: Seq<Observer<C>>) -> Seq<C> {
    v.map_values(|o: Observer<C>| o.callback)
}

/// The count that `counts` keeps for entity `e`, zero if none.
pub open spec fn count_in(counts: Map<u64, u64>, e: EntityId) -> u64 {
    if counts.contains_key(entity_key(e)) {
        counts[entity_key(e)]
    } else {
        0
    }
}

/// `id` is carried by none of the subscriptions `subs`.
pub open spec fn fresh_id(subs: Seq<(EntityId, SubscriptionId)>, id: SubscriptionId) -> bool {
    forall|k: int| 0 <= k < subs.len() ==> (#[trigger] subs[k]).1 != id
}

/// Every callback of `callbacks` may be called.
pub open spec fn callbacks_callable<C: FnMut()>(callbacks: Seq<C>) -> bool {
    forall|i: int| 0 <= i < callbacks.len() ==> call_requires(#[trigger] callbacks[i], ())
}

/// The callback of every subscription in `subs` to an entity of `changed`
/// was called: `before` holds the callbacks as they were before the calls.
pub open spec fn changed_callbacks_ran<C: FnMut()>(
    subs: Seq<(EntityId, SubscriptionId)>,
    changed: Seq<EntityId>,
    before: Seq<C>,
) -> bool {
    forall|i: int| 0 <= i < before.len() && changed.contains(subs[i].0) ==> call_ensures(#[trigger] before[i], (), ())
}

/// Only the callbacks of subscriptions in `subs` to an entity of `changed`
/// were touched: every other callback of `before` is the same in `after`.
pub open spec fn other_callbacks_kept<C: FnMut()>(
    subs: Seq<(EntityId, SubscriptionId)>,
    changed: Seq<EntityId>,
    before: Seq<C>,
    after: Seq<C>,
) -> bool {
    &&& after.len() == before.len()
    &&& forall|i: int| 0 <= i < before.len() && !changed.contains(subs[i].0) ==> #[trigger] after[i] == before[i]
}

/// Whether `v` holds `e`.
pub fn contains_entity(v: &Vec<EntityId>, e: EntityId) -> (r: bool)
    ensures
        r == v@.contains(e),
{
    let mut i: usize = 0;
    while i < v.len()
        invariant
            i <= v@.len(),
            forall|j: int| 0 <= j < i ==> v@[j] != e,
        decreases v@.len() - i,
    {
        if v[i] == e {
            assert(v@[i as int] == e);
            return true;
        }
        i = i + 1;
    }
    false
}

/// Invoke an observer's callback.
///
/// Calls the callback through `FnMut::call_mut`, which runs it once: the
/// contract claims only that the call was made, so that the callback's own
/// postcondition held of its state before the call; what the callback
/// does beyond that is its own.
#[verifier::external_body]
fn notify_observer<C: FnMut()>(callback: &mut C)
    requires
        call_requires(*old(callback), ()),
    ensures
        call_ensures(*old(callback), (), ()),
{
    callback()
}

/// The subscription ids of entity `e`, in subscription order.
pub open spec fn ids_for(subs: Seq<(EntityId, SubscriptionId)>, e: EntityId) -> Seq<SubscriptionId>
    decreases subs.len(),
{
    if subs.len() == 0 {
        Seq::empty()
    } else {
        let rest = ids_for(subs.drop_last(), e);
        if subs.last().0 == e {
            rest.push(subs.last().1)
        } else {
            rest
        }
    }
}

/// The subscriptions left after removing subscription `sid`.
pub open spec fn without_id(subs: Seq<(EntityId, SubscriptionId)>, sid: SubscriptionId) -> Seq<(EntityId, SubscriptionId)>
    decreases subs.len(),
{
    if subs.len() == 0 {
        Seq::empty()
    } else {
        let rest = without_id(subs.drop_last(), sid);
        if subs.last().1 == sid {
            rest
        } else {
            rest.push(subs.last())
        }
    }
}

/// The subscriptions left after removing every subscription to entity `e`.
pub open spec fn without_entity(subs: Seq<(EntityId, SubscriptionId)>, e: EntityId) -> Seq<(EntityId, SubscriptionId)>
    decreases subs.len(),
{
    if subs.len() == 0 {
        Seq::empty()
    } else {
        let rest = without_entity(subs.drop_last(), e);
        if subs.last().0 == e {
            rest
        } else {
            rest.push(subs.last())
        }
    }
}

/// The subscriptions notified when the changed entities `changed` are
/// flushed: for each changed entity in turn, its observers in subscription order.
pub open spec fn notified(changed: Seq<EntityId>, subs: Seq<(EntityId, SubscriptionId)>) -> Seq<SubscriptionId>
    decreases changed.len(),
{
    if changed.len() == 0 {
        Seq::empty()
    } else {
        notified(changed.drop_last(), subs) + ids_for(subs, changed.last())
    }
}

/// Manages subscriptions and change notifications for entities.
pub struct ObserverRegistry<C> {
    observers: Vec<Observer<C>>,
    pending_changes: Vec<EntityId>,
    invalidation_requested: bool,
    change_counts: HashMap<u64, u64>,
}

impl<C: FnMut()> ObserverRegistry<C> {
    /// All subscriptions as (entity, subscription) pairs, in subscription order.
    pub closed spec fn subscriptions(&self) -> Seq<(EntityId, SubscriptionId)> {
        pairs(self.observers@)
    }

    /// The callbacks of the subscriptions, in subscription order.
    pub closed spec fn callbacks(&self) -> Seq<C> {
        callbacks_of(self.observers@)
    }

    /// Flush counts by entity number (see `change_count`).
    pub closed spec fn counts(&self) -> Map<u64, u64> {
        self.change_counts@
    }

    /// How many flushes reported `e` as changed (wrapping at `u64::MAX`).
    pub open spec fn change_count(&self, e: EntityId) -> u64 {
        count_in(self.counts(), e)
    }

    /// Entities changed since the last flush, in the order they were first marked.
    pub closed spec fn pending(&self) -> Seq<EntityId> {
        self.pending_changes@
    }

    /// Whether a UI invalidation has been requested.
    pub closed spec fn invalidation(&self) -> bool {
        self.invalidation_requested
    }

    /// The registry's invariant: each changed entity is pending once.
    pub closed spec fn wf(&self) -> bool {
        self.pending_changes@.no_duplicates()
    }

    /// `after` is this registry after `entity_id` was marked as changed: an
    /// entity with observers is pending once and invalidation is requested;
    /// marking an entity nobody observes changes nothing.
    pub open spec fn marked_changed(self, after: Self, entity_id: EntityId) -> bool {
        &&& after.subscriptions() == self.subscriptions()
        &&& after.callbacks() == self.callbacks()
        &&& after.counts() == self.counts()
        &&& if ids_for(self.subscriptions(), entity_id).len() > 0 {
            &&& after.invalidation()
            &&& after.pending() == (if self.pending().contains(entity_id) {
                self.pending()
            } else {
                self.pending().push(entity_id)
            })
        } else {
            &&& after.invalidation() == self.invalidation()
            &&& after.pending() == self.pending()
        }
    }

    /// Create an empty registry.
    pub fn new() -> (r: Self)
        ensures
            r.wf(),
            r.subscriptions() == Seq::<(EntityId, SubscriptionId)>::empty(),
            r.pending() == Seq::<EntityId>::empty(),
            !r.invalidation(),
            r.counts() == Map::<u64, u64>::empty(),
    {
        ObserverRegistry {
            observers: Vec::new(),
            pending_changes: Vec::new(),
            invalidation_requested: false,
            change_counts: HashMap::new(),
        }
    }

    /// Subscribe `callback` to changes of `entity_id` under the id `id`,
    /// which no subscription carries yet (the caller draws it from a counter
    /// shared by all registries); returns that id.
    pub fn subscribe(&mut self, entity_id: EntityId, callback: C, id: SubscriptionId) -> (r: SubscriptionId)
        requires
            old(self).wf(),
            fresh_id(old(self).subscriptions(), id),
        ensures
            final(self).wf(),
            r == id,
            final(self).subscriptions() == old(self).subscriptions().push((entity_id, id)),
            final(self).callbacks() == old(self).callbacks().push(callback),
            final(self).pending() == old(self).pending(),
            final(self).invalidation() == old(self).invalidation(),
            final(self).counts() == old(self).counts(),
    {
        let ghost cb = callback;
        self.observers.push(Observer { entity: entity_id, id, callback });
        proof {
            assert(self.subscriptions() =~= old(self).subscriptions().push((entity_id, id)));
            assert(self.callbacks() =~= old(self).callbacks().push(cb));
        }
        id
    }
}


impl<C: FnMut()> ObserverRegistry<C> {
    /// Remove subscription `subscription_id`, whichever entity it observes.
    pub fn unsubscribe(&mut self, subscription_id: SubscriptionId)
        requires
            old(self).wf(),
        ensures
            final(self).wf(),
            final(self).subscriptions() == without_id(old(self).subscriptions(), subscription_id),
            final(self).pending() == old(self).pending(),
            final(self).invalidation() == old(self).invalidation(),
            final(self).counts() == old(self).counts(),
    {
        let ghost all = old(self).subscriptions();
        let mut rest: Vec<Observer<C>> = Vec::new();
        std::mem::swap(&mut rest, &mut self.observers);
        let ghost n = rest@.len();
        assert(pairs(rest@) =~= all);
        while rest.len() > 0
            invariant
                n == all.len(),
                rest@.len() <= n,
                pairs(rest@) =~= all.skip(n - rest@.len()),
                self.subscriptions() == without_id(all.take(n - rest@.len()), subscription_id),
                self.pending_changes@ == old(self).pending_changes@,
                self.invalidation_requested == old(self).invalidation_requested,
                self.change_counts@ == old(self).change_counts@,
            decreases rest@.len(),
        {
            let ghost k = n - rest@.len();
            let ghost before = self.subscriptions();
            let ghost rv = rest@;
            assert(pairs(rv)[0] == all.skip(k)[0]);
            let o = rest.remove(0);
            assert(o == rv[0]);
            assert(all[k] == (o.entity, o.id));
            assert(all.take(k + 1).drop_last() =~= all.take(k));
            if o.id != subscription_id {
                self.observers.push(o);
                assert(self.subscriptions() =~= before.push(all[k]));
            } else {
                assert(self.subscriptions() =~= before);
            }
            assert forall|j: int| 0 <= j < rest@.len() implies pairs(rest@)[j] == all.skip(k + 1)[j] by {
                assert(rest@[j] == rv[j + 1]);
                assert(pairs(rv)[j + 1] == all.skip(k)[j + 1]);
            }
            assert(pairs(rest@) =~= all.skip(k + 1));
        }
        assert(all.take(n as int) =~= all);
    }

    /// Remove every subscription to `entity_id`.
    pub fn unsubscribe_all(&mut self, entity_id: EntityId)
        requires
            old(self).wf(),
        ensures
            final(self).wf(),
            final(self).subscriptions() == without_entity(old(self).subscriptions(), entity_id),
            final(self).pending() == old(self).pending(),
            final(self).invalidation() == old(self).invalidation(),
            final(self).counts() == old(self).counts(),
    {
        let ghost all = old(self).subscriptions();
        let mut rest: Vec<Observer<C>> = Vec::new();
        std::mem::swap(&mut rest, &mut self.observers);
        let ghost n = rest@.len();
        assert(pairs(rest@) =~= all);
        while rest.len() > 0
            invariant
                n == all.len(),
                rest@.len() <= n,
                pairs(rest@) =~= all.skip(n - rest@.len()),
                self.subscriptions() == without_entity(all.take(n - rest@.len()), entity_id),
                self.pending_changes@ == old(self).pending_changes@,
                self.invalidation_requested == old(self).invalidation_requested,
                self.change_counts@ == old(self).change_counts@,
            decreases rest@.len(),
        {
            let ghost k = n - rest@.len();
            let ghost before = self.subscriptions();
            let ghost rv = rest@;
            assert(pairs(rv)[0] == all.skip(k)[0]);
            let o = rest.remove(0);
            assert(o == rv[0]);
            assert(all[k] == (o.entity, o.id));
            assert(all.take(k + 1).drop_last() =~= all.take(k));
            if o.entity != entity_id {
                self.observers.push(o);
                assert(self.subscriptions() =~= before.push(all[k]));
            } else {
                assert(self.subscriptions() =~= before);
            }
            assert forall|j: int| 0 <= j < rest@.len() implies pairs(rest@)[j] == all.skip(k + 1)[j] by {
                assert(rest@[j] == rv[j + 1]);
                assert(pairs(rv)[j + 1] == all.skip(k)[j + 1]);
            }
            assert(pairs(rest@) =~= all.skip(k + 1));
        }
        assert(all.take(n as int) =~= all);
    }

    /// Number of subscriptions to `entity_id`.
    pub fn subscription_count(&self, entity_id: EntityId) -> (n: usize)
        ensures
            n == ids_for(self.subscriptions(), entity_id).len(),
    {
        let ghost all = self.subscriptions();
        let mut count: usize = 0;
        let mut i: usize = 0;
        while i < self.observers.len()
            invariant
                all == self.subscriptions(),
                i <= self.observers@.len(),
                count == ids_for(all.take(i as int), entity_id).len(),
                count <= i,
            decreases self.observers@.len() - i,
        {
            assert(all.take(i + 1).drop_last() =~= all.take(i as int));
            if self.observers[i].entity == entity_id {
                count = count + 1;
            }
            i = i + 1;
        }
        assert(all.take(i as int) =~= all);
        count
    }

    /// Mark `entity_id` as changed.  Only an entity with observers becomes
    /// pending (once) and requests invalidation; notification happens at flush.
    pub fn mark_changed(&mut self, entity_id: EntityId)
        requires
            old(self).wf(),
        ensures
            final(self).wf(),
            old(self).marked_changed(*final(self), entity_id),
    {
        let n = self.subscription_count(entity_id);
        if n > 0 {
            let found = contains_entity(&self.pending_changes, entity_id);
            if !found {
                self.pending_changes.push(entity_id);
            }
            self.invalidation_requested = true;
        }
    }

    /// Whether UI invalidation has been requested.
    pub fn invalidation_requested(&self) -> (r: bool)
        ensures
            r == self.invalidation(),
    {
        self.invalidation_requested
    }

    /// Clear the invalidation request flag.
    pub fn clear_invalidation(&mut self)
        requires
            old(self).wf(),
        ensures
            final(self).wf(),
            !final(self).invalidation(),
            final(self).subscriptions() == old(self).subscriptions(),
            final(self).callbacks() == old(self).callbacks(),
            final(self).pending() == old(self).pending(),
            final(self).counts() == old(self).counts(),
    {
        self.invalidation_requested = false;
    }

    /// How many flushes reported `e` as changed (wrapping at `u64::MAX`).
    pub fn changes_of(&self, e: EntityId) -> (n: u64)
        ensures
            n == self.change_count(e),
    {
        match self.change_counts.get(&key_of(e)) {
            Some(v) => *v,
            None => 0,
        }
    }

    /// Number of entities changed since the last flush.
    pub fn pending_count(&self) -> (n: usize)
        ensures
            n == self.pending().len(),
    {
        self.pending_changes.len()
    }

    /// Whether any entity changed since the last flush.
    pub fn has_pending_changes(&self) -> (r: bool)
        ensures
            r == (self.pending().len() > 0),
    {
        self.pending_changes.len() > 0
    }

    /// Remove all subscriptions and pending changes, and clear the
    /// invalidation request.
    pub fn clear(&mut self)
        requires
            old(self).wf(),
        ensures
            final(self).wf(),
            final(self).subscriptions() == Seq::<(EntityId, SubscriptionId)>::empty(),
            final(self).pending() == Seq::<EntityId>::empty(),
            !final(self).invalidation(),
            final(self).counts() == old(self).counts(),
    {
        self.observers.clear();
        self.pending_changes.clear();
        self.invalidation_requested = false;
        assert(self.subscriptions() =~= Seq::<(EntityId, SubscriptionId)>::empty());
    }
}


impl<C: FnMut()> ObserverRegistry<C> {
    /// Notify, once each, the observers of every entity changed since the last
    /// flush, running their callbacks; count one more change for each such
    /// entity; then clear the pending changes and the invalidation request.
    /// Returns the notified subscriptions in the order they were notified.
    pub fn flush(&mut self) -> (notified_ids: Vec<SubscriptionId>)
        requires
            old(self).wf(),
            callbacks_callable(old(self).callbacks()),
        ensures
            final(self).wf(),
            notified_ids@ == notified(old(self).pending(), old(self).subscriptions()),
            changed_callbacks_ran(old(self).subscriptions(), old(self).pending(), old(self).callbacks()),
            other_callbacks_kept(old(self).subscriptions(), old(self).pending(), old(self).callbacks(), final(self).callbacks()),
            final(self).subscriptions() == old(self).subscriptions(),
            final(self).pending() == Seq::<EntityId>::empty(),
            !final(self).invalidation(),
            forall|e: EntityId| #[trigger] final(self).change_count(e) == if old(self).pending().contains(e) {
                old(self).change_count(e).wrapping_add(1)
            } else {
                old(self).change_count(e)
            },
    {
        let ghost all = old(self).subscriptions();
        let ghost cbs0 = old(self).callbacks();
        let ghost n = all.len();
        let mut changed: Vec<EntityId> = Vec::new();
        std::mem::swap(&mut changed, &mut self.pending_changes);
        let mut out: Vec<SubscriptionId> = Vec::new();
        let mut c: usize = 0;
        while c < changed.len()
            invariant
                c <= changed@.len(),
                changed@ == old(self).pending_changes@,
                changed@.no_duplicates(),
                self.subscriptions() == all,
                n == all.len(),
                self.observers@.len() == n,
                cbs0.len() == n,
                callbacks_callable(cbs0),
                self.pending_changes@ == Seq::<EntityId>::empty(),
                out@ == notified(changed@.take(c as int), all),
                forall|i: int| 0 <= i < n ==> if changed@.take(c as int).contains(all[i].0) {
                    call_ensures(#[trigger] cbs0[i], (), ())
                } else {
                    self.callbacks()[i] == cbs0[i]
                },
                forall|x: EntityId| #[trigger] count_in(self.change_counts@, x) == if changed@.take(c as int).contains(x) {
                    old(self).change_count(x).wrapping_add(1)
                } else {
                    old(self).change_count(x)
                },
            decreases changed@.len() - c,
        {
            let e = changed[c];
            let ghost base = out@;
            let ghost done = changed@.take(c as int);
            assert(!done.contains(e)) by {
                if done.contains(e) {
                    let w = choose|w: int| 0 <= w < done.len() && done[w] == e;
                    assert(changed@[w] == changed@[c as int]);
                }
            }
            let ghost counts_entry = self.change_counts@;
            let mut j: usize = 0;
            while j < self.observers.len()
                invariant
                    j <= self.observers@.len(),
                    self.observers@.len() == n,
                    n == all.len(),
                    cbs0.len() == n,
                    callbacks_callable(cbs0),
                    self.subscriptions() == all,
                    self.pending_changes@ == Seq::<EntityId>::empty(),
                    out@ == base + ids_for(all.take(j as int), e),
                    !done.contains(e),
                    forall|i: int| 0 <= i < n ==> if done.contains(all[i].0) || (i < j && all[i].0 == e) {
                        call_ensures(#[trigger] cbs0[i], (), ())
                    } else {
                        self.callbacks()[i] == cbs0[i]
                    },
                    self.change_counts@ == counts_entry,
                decreases self.observers@.len() - j,
            {
                assert(all.take(j + 1).drop_last() =~= all.take(j as int));
                assert(all[j as int] == obs_pair(self.observers@[j as int]));
                if self.observers[j].entity == e {
                    let id = self.observers[j].id;
                    let ghost before = self.observers@;
                    proof {
                        assert(self.callbacks()[j as int] == before[j as int].callback);
                        assert(self.callbacks()[j as int] == cbs0[j as int]);
                        assert(call_requires(cbs0[j as int], ()));
                    }
                    notify_observer(&mut self.observers[j].callback);
                    assert(pairs(self.observers@) =~= pairs(before));
                    proof {
                        assert forall|i: int| 0 <= i < n && i != j implies #[trigger] self.observers@[i] == before[i] by {}
                        assert forall|i: int| 0 <= i < n && i != j implies self.callbacks()[i] == #[trigger] callbacks_of(before)[i] by {
                            assert(self.observers@[i] == before[i]);
                        }
                    }
                    out.push(id);
                    assert(out@ =~= base + ids_for(all.take(j + 1), e));
                }
                j = j + 1;
            }
            let k = key_of(e);
            let prev: u64 = match self.change_counts.get(&k) {
                Some(v) => *v,
                None => 0,
            };
            let ghost counts_before = self.change_counts@;
            let _ = self.change_counts.insert(k, prev.wrapping_add(1));
            proof {
                assert(changed@.take(c + 1) =~= done.push(e));
                assert forall|x: EntityId| #[trigger] count_in(self.change_counts@, x) == if changed@.take(c + 1).contains(x) {
                    old(self).change_count(x).wrapping_add(1)
                } else {
                    old(self).change_count(x)
                } by {
                    lemma_entity_key_injective(x, e);
                    assert(count_in(counts_entry, x) == if done.contains(x) {
                        old(self).change_count(x).wrapping_add(1)
                    } else {
                        old(self).change_count(x)
                    });
                    assert(done.push(e).contains(x) <==> (done.contains(x) || x == e)) by {
                        if done.push(e).contains(x) && x != e {
                            let w = choose|w: int| 0 <= w < done.push(e).len() && done.push(e)[w] == x;
                            assert(done[w] == x);
                        }
                        if done.contains(x) {
                            let w = choose|w: int| 0 <= w < done.len() && done[w] == x;
                            assert(done.push(e)[w] == x);
                        }
                        if x == e {
                            assert(done.push(e)[done.len() as int] == x);
                        }
                    }
                }
                assert forall|i: int| 0 <= i < n implies if changed@.take(c + 1).contains(all[i].0) {
                    call_ensures(#[trigger] cbs0[i], (), ())
                } else {
                    self.callbacks()[i] == cbs0[i]
                } by {
                    let x = all[i].0;
                    assert(done.push(e).contains(x) <==> (done.contains(x) || x == e)) by {
                        if done.push(e).contains(x) && x != e {
                            let w = choose|w: int| 0 <= w < done.push(e).len() && done.push(e)[w] == x;
                            assert(done[w] == x);
                        }
                        if done.contains(x) {
                            let w = choose|w: int| 0 <= w < done.len() && done[w] == x;
                            assert(done.push(e)[w] == x);
                        }
                        if x == e {
                            assert(done.push(e)[done.len() as int] == x);
                        }
                    }
                }
            }
            assert(all.take(j as int) =~= all);
            assert(changed@.take(c + 1).drop_last() =~= changed@.take(c as int));
            c = c + 1;
        }
        assert(changed@.take(c as int) =~= changed@);
        self.invalidation_requested = false;
        assert forall|e: EntityId| #[trigger] self.change_count(e) == if old(self).pending().contains(e) {
            old(self).change_count(e).wrapping_add(1)
        } else {
            old(self).change_count(e)
        } by {
            assert(count_in(self.change_counts@, e) == self.change_count(e));
        }
        out
    }
}


impl<C: FnMut()> Default for ObserverRegistry<C> {
    fn default() -> (r: Self)
        ensures
            r.wf(),
            r.subscriptions() == Seq::<(EntityId, SubscriptionId)>::empty(),
            r.pending() == Seq::<EntityId>::empty(),
            !r.invalidation(),
    {
        Self::new()
    }
}

} // verus!

verus! {

/// Law: marking the same entity twice before a flush is the same as marking
/// it once, so its observers are notified once per flush.
pub proof fn law_mark_changed_batches<C: FnMut()>(
    r0: ObserverRegistry<C>,
    r1: ObserverRegistry<C>,
    r2: ObserverRegistry<C>,
    e: EntityId,
)
    requires
        r0.marked_changed(r1, e),
        r1.marked_changed(r2, e),
    ensures
        r2.pending() == r1.pending(),
        r2.invalidation() == r1.invalidation(),
        r2.subscriptions() == r1.subscriptions(),
{
    if ids_for(r0.subscriptions(), e).len() > 0 {
        assert(r1.pending().contains(e)) by {
            if !r0.pending().contains(e) {
                assert(r1.pending()[r1.pending().len() - 1] == e);
            }
        }
    }
}

/// An unsubscribed id is not among the observers of any entity.
pub proof fn lemma_without_id_excludes(subs: Seq<(EntityId, SubscriptionId)>, sid: SubscriptionId, e: EntityId)
    ensures
        !ids_for(without_id(subs, sid), e).contains(sid),
    decreases subs.len(),
{
    if subs.len() > 0 {
        lemma_without_id_excludes(subs.drop_last(), sid, e);
        let rest = without_id(subs.drop_last(), sid);
        if subs.last().1 != sid {
            let w = without_id(subs, sid);
            assert(w == rest.push(subs.last()));
            assert(w.drop_last() =~= rest);
            let r = ids_for(rest, e);
            if w.last().0 == e {
                assert(ids_for(w, e) == r.push(subs.last().1));
                if ids_for(w, e).contains(sid) {
                    let k = choose|k: int| 0 <= k < ids_for(w, e).len() && ids_for(w, e)[k] == sid;
                    if k < r.len() {
                        assert(r[k] == sid);
                    }
                }
            } else {
                assert(ids_for(w, e) == r);
            }
        }
    }
}

/// Law: a flush notifies a subscription exactly when the entity it observes
/// is among the changed ones; in particular an unsubscribed id is never notified.
pub proof fn law_flush_notifies_observers_of_changed(
    changed: Seq<EntityId>,
    subs: Seq<(EntityId, SubscriptionId)>,
    sid: SubscriptionId,
)
    ensures
        notified(changed, subs).contains(sid) <==>
            exists|k: int| 0 <= k < changed.len() && #[trigger] ids_for(subs, changed[k]).contains(sid),
        !notified(changed, without_id(subs, sid)).contains(sid),
    decreases changed.len(),
{
    if changed.len() > 0 {
        law_flush_notifies_observers_of_changed(changed.drop_last(), subs, sid);
        let a = notified(changed.drop_last(), subs);
        let b = ids_for(subs, changed.last());
        let n = a + b;
        assert(notified(changed, subs) == n);
        if n.contains(sid) {
            let j = choose|j: int| 0 <= j < n.len() && n[j] == sid;
            if j < a.len() {
                assert(a[j] == sid);
                assert(a.contains(sid));
                let k = choose|k: int| 0 <= k < changed.drop_last().len() && #[trigger] ids_for(subs, changed.drop_last()[k]).contains(sid);
                assert(changed[k] == changed.drop_last()[k]);
            } else {
                assert(b[j - a.len()] == sid);
                assert(b.contains(sid));
                assert(changed[changed.len() - 1] == changed.last());
                assert(ids_for(subs, changed[changed.len() - 1]).contains(sid));
            }
        }
        if exists|k: int| 0 <= k < changed.len() && #[trigger] ids_for(subs, changed[k]).contains(sid) {
            let k = choose|k: int| 0 <= k < changed.len() && #[trigger] ids_for(subs, changed[k]).contains(sid);
            if k < changed.len() - 1 {
                assert(changed.drop_last()[k] == changed[k]);
                assert(a.contains(sid));
                let j = choose|j: int| 0 <= j < a.len() && a[j] == sid;
                assert(n[j] == sid);
            } else {
                let j = choose|j: int| 0 <= j < b.len() && b[j] == sid;
                assert(n[a.len() + j] == sid);
            }
        }
        law_flush_notifies_observers_of_changed(changed.drop_last(), without_id(subs, sid), sid);
        lemma_without_id_excludes(subs, sid, changed.last());
        let a2 = notified(changed.drop_last(), without_id(subs, sid));
        let b2 = ids_for(without_id(subs, sid), changed.last());
        if (a2 + b2).contains(sid) {
            let j = choose|j: int| 0 <= j < (a2 + b2).len() && (a2 + b2)[j] == sid;
            if j < a2.len() {
                assert(a2[j] == sid);
            } else {
                assert(b2[j - a2.len()] == sid);
            }
        }
    }
}


/// How many times `s` occurs in `q`.
pub open spec fn occurrences(q: Seq<SubscriptionId>, s: SubscriptionId) -> nat
    decreases q.len(),
{
    if q.len() == 0 {
        0
    } else {
        occurrences(q.drop_last(), s) + if q.last() == s { 1nat } else { 0nat }
    }
}

proof fn lemma_occurrences_concat(a: Seq<SubscriptionId>, b: Seq<SubscriptionId>, s: SubscriptionId)
    ensures
        occurrences(a + b, s) == occurrences(a, s) + occurrences(b, s),
    decreases b.len(),
{
    if b.len() == 0 {
        assert(a + b =~= a);
    } else {
        lemma_occurrences_concat(a, b.drop_last(), s);
        assert((a + b).drop_last() =~= a + b.drop_last());
        assert((a + b).last() == b.last());
    }
}

/// An id that no subscription carries is among nobody's observers.
proof fn lemma_fresh_not_observing(subs: Seq<(EntityId, SubscriptionId)>, x: EntityId, s: SubscriptionId)
    requires
        forall|k: int| 0 <= k < subs.len() ==> (#[trigger] subs[k]).1 != s,
    ensures
        occurrences(ids_for(subs, x), s) == 0,
    decreases subs.len(),
{
    if subs.len() > 0 {
        let init = subs.drop_last();
        assert forall|k: int| 0 <= k < init.len() implies (#[trigger] init[k]).1 != s by {
            assert(init[k] == subs[k]);
        }
        lemma_fresh_not_observing(init, x, s);
        assert(subs[subs.len() - 1].1 != s);
        let r = ids_for(init, x);
        if subs.last().0 == x {
            assert(ids_for(subs, x).drop_last() =~= r);
        }
    }
}

/// With `s` subscribed last, to `e`, under an id no earlier subscription
/// carries, a flush of the distinct changed entities `changed` notifies
/// `s` once if `e` is among them and never otherwise.
proof fn lemma_notified_once(
    changed: Seq<EntityId>,
    subs: Seq<(EntityId, SubscriptionId)>,
    e: EntityId,
    s: SubscriptionId,
)
    requires
        changed.no_duplicates(),
        forall|k: int| 0 <= k < subs.len() ==> (#[trigger] subs[k]).1 != s,
    ensures
        occurrences(notified(changed, subs.push((e, s))), s) == if changed.contains(e) { 1nat } else { 0nat },
    decreases changed.len(),
{
    let subs1 = subs.push((e, s));
    if changed.len() > 0 {
        let init = changed.drop_last();
        let x = changed.last();
        assert(init.no_duplicates()) by {
            assert forall|i: int, j: int| 0 <= i < init.len() && 0 <= j < init.len() && i != j implies init[i] != init[j] by {
                assert(init[i] == changed[i] && init[j] == changed[j]);
            }
        }
        lemma_notified_once(init, subs, e, s);
        lemma_occurrences_concat(notified(init, subs1), ids_for(subs1, x), s);
        lemma_fresh_not_observing(subs, x, s);
        assert(subs1.drop_last() =~= subs);
        if x == e {
            assert(ids_for(subs1, x).drop_last() =~= ids_for(subs, x));
            assert(!init.contains(e)) by {
                if init.contains(e) {
                    let i = choose|i: int| 0 <= i < init.len() && init[i] == e;
                    assert(changed[i] == changed[changed.len() - 1]);
                }
            }
            assert(changed[changed.len() - 1] == e);
        } else {
            assert(ids_for(subs1, x) == ids_for(subs, x));
            if changed.contains(e) {
                let i = choose|i: int| 0 <= i < changed.len() && changed[i] == e;
                assert(init[i] == e);
            }
            if init.contains(e) {
                let i = choose|i: int| 0 <= i < init.len() && init[i] == e;
                assert(changed[i] == e);
            }
        }
    }
}

/// Law: the life of a subscription.  Subscribed under an id that no other
/// subscription carries, it is not notified at once; after its entity is
/// marked changed (once or more, see `law_mark_changed_batches`), a UI
/// invalidation is requested and the next flush notifies it exactly once;
/// once it is removed, no flush notifies it.
pub proof fn law_subscription_lifecycle<C: FnMut()>(
    r0: ObserverRegistry<C>,
    r1: ObserverRegistry<C>,
    r2: ObserverRegistry<C>,
    e: EntityId,
    s: SubscriptionId,
)
    requires
        r0.wf(),
        forall|k: int| 0 <= k < r0.subscriptions().len() ==> (#[trigger] r0.subscriptions()[k]).1 != s,
        r1.subscriptions() == r0.subscriptions().push((e, s)),
        r1.pending() == r0.pending(),
        r1.marked_changed(r2, e),
    ensures
        occurrences(notified(r1.pending(), r1.subscriptions()), s) == if r0.pending().contains(e) { 1nat } else { 0nat },
        r2.invalidation(),
        r2.pending().contains(e),
        occurrences(notified(r2.pending(), r2.subscriptions()), s) == 1,
        forall|changed: Seq<EntityId>| !(#[trigger] notified(changed, without_id(r2.subscriptions(), s))).contains(s),
{
    let subs0 = r0.subscriptions();
    let p = r0.pending();
    lemma_notified_once(p, subs0, e, s);
    assert(ids_for(r1.subscriptions(), e).drop_last() =~= ids_for(subs0, e)) by {
        assert(r1.subscriptions().drop_last() =~= subs0);
    }
    let p2 = r2.pending();
    if !p.contains(e) {
        assert(p2.no_duplicates()) by {
            assert forall|i: int, j: int| 0 <= i < p2.len() && 0 <= j < p2.len() && i != j implies p2[i] != p2[j] by {
                if i < p.len() && j < p.len() {
                    assert(p2[i] == p[i] && p2[j] == p[j]);
                } else if i < p.len() {
                    assert(p2[i] == p[i]);
                } else if j < p.len() {
                    assert(p2[j] == p[j]);
                }
            }
        }
        assert(p2[p2.len() - 1] == e);
    }
    lemma_notified_once(p2, subs0, e, s);
    assert forall|changed: Seq<EntityId>| !(#[trigger] notified(changed, without_id(r2.subscriptions(), s))).contains(s) by {
        law_flush_notifies_observers_of_changed(changed, r2.subscriptions(), s);
    }
}

} // verus!
