//! Computed values: state derived from an entity by a mapping function,
//! cached until the entity changes.
//!
//! A computed value subscribes to its source entity; once a flush of the
//! store reports the source as changed, the cached value is stale and the
//! next read recomputes it.

use vstd::prelude::*;
use vstd::pervasive::cloned;
use crate::entity::{Entity, EntityId};
use crate::entity::observe::{fresh_id, ids_for, SubscriptionId};
use crate::entity::store::EntityStore;

verus! {

/// Cache of a computed value; a cleared validity flag marks the value stale.
pub struct ComputedCache<R> {
    value: Option<R>,
    valid: bool,
}

impl<R> ComputedCache<R> {
    /// The stored value.
    pub closed spec fn stored(&self) -> Option<R> {
        self.value
    }

    /// Whether the stored value is current.
    pub closed spec fn is_current(&self) -> bool {
        self.valid
    }

    /// An empty, invalid cache.
    pub fn new() -> (c: Self)
        ensures
            c.stored() is None,
            !c.is_current(),
    {
        ComputedCache { value: None, valid: false }
    }

    /// Mark the stored value stale.
    pub fn invalidate(&mut self)
        ensures
            !final(self).is_current(),
            final(self).stored() == old(self).stored(),
    {
        self.valid = false;
    }

    /// Store `value` as current.
    pub fn set(&mut self, value: R)
        ensures
            final(self).is_current(),
            final(self).stored() == Some(value),
    {
        self.value = Some(value);
        self.valid = true;
    }

    /// The stored value while it is current.
    pub fn get(&self) -> (r: Option<&R>)
        ensures
            r is Some <==> self.is_current() && self.stored() is Some,
            r is Some ==> *(r->0) == self.stored()->0,
    {
        if self.valid {
            self.value.as_ref()
        } else {
            None
        }
    }

    /// Whether the stored value is current.
    pub fn is_valid(&self) -> (r: bool)
        ensures
            r == self.is_current(),
    {
        self.valid
    }
}

/// A value derived from the state of one entity by `mapper`, cached until
/// the entity changes.
///
/// The value remembers how many flushes of its store had reported its
/// source as changed when it was computed; once a later flush reports the
/// source again, the cached value is stale.
pub struct Computed<R, M> {
    source: EntityId,
    mapper: M,
    cache: ComputedCache<R>,
    subscription_id: SubscriptionId,
    seen: u64,
}

impl<R: Clone, M> Computed<R, M> {
    /// The source entity.
    pub closed spec fn source(&self) -> EntityId {
        self.source
    }

    /// The mapping function.
    pub closed spec fn mapper_fn(&self) -> M {
        self.mapper
    }

    /// The cache.
    pub closed spec fn cache_state(&self) -> ComputedCache<R> {
        self.cache
    }

    /// The subscription to the source's changes.
    pub closed spec fn subscription(&self) -> SubscriptionId {
        self.subscription_id
    }

    /// The source's change count when the cached value was computed.
    pub closed spec fn seen(&self) -> u64 {
        self.seen
    }

    /// Whether the cached value is current in `store`: it was stored and no
    /// flush of `store` has reported the source as changed since.
    pub open spec fn is_current_in<T, C: FnMut()>(&self, store: &EntityStore<T, C>) -> bool {
        &&& self.cache_state().is_current()
        &&& self.seen() == store.registry().change_count(self.source())
    }

    /// Derive a value from `source` by `mapper`: subscribes `on_change` to
    /// the source's changes in `store` under the id `id`, which no
    /// subscription carries yet (drawn by the caller from a counter shared
    /// by all stores); nothing is computed yet.
    pub fn new<T, C: FnMut()>(store: &mut EntityStore<T, C>, source: &Entity<T>, mapper: M, on_change: C, id: SubscriptionId) -> (c: Self)
        where M: Fn(&T) -> R,
        requires
            old(store).wf(),
            fresh_id(old(store).registry().subscriptions(), id),
        ensures
            final(store).wf(),
            c.source() == source@,
            c.mapper_fn() == mapper,
            c.cache_state().stored() is None,
            !c.cache_state().is_current(),
            c.subscription() == id,
            final(store).registry().subscriptions() == old(store).registry().subscriptions().push((source@, c.subscription())),
            final(store).registry().callbacks() == old(store).registry().callbacks().push(on_change),
            final(store).registry().pending() == old(store).registry().pending(),
            final(store).registry().invalidation() == old(store).registry().invalidation(),
            final(store).registry().counts() == old(store).registry().counts(),
            final(store).slots() == old(store).slots(),
            final(store).free_slots() == old(store).free_slots(),
            final(store).pending_cleanup() == old(store).pending_cleanup(),
    {
        let seen = store.change_count(source.id());
        let subscription_id = store.subscribe(source, on_change, id);
        Computed { source: source.id(), mapper, cache: ComputedCache::new(), subscription_id, seen }
    }

    /// The derived value: the cached one while it is current in `store`,
    /// else `mapper` applied to the source's state, which is then cached;
    /// `None` if the source is no longer stored.
    pub fn get<T, C: FnMut()>(&mut self, store: &EntityStore<T, C>) -> (r: Option<R>)
        where M: Fn(&T) -> R,
        requires
            forall|t: &T| #[trigger] old(self).mapper_fn().requires((t,)),
        ensures
            final(self).source() == old(self).source(),
            final(self).mapper_fn() == old(self).mapper_fn(),
            final(self).subscription() == old(self).subscription(),
            old(self).is_current_in(store) && old(self).cache_state().stored() is Some ==> {
                &&& r is Some
                &&& cloned(old(self).cache_state().stored()->0, r->0)
                &&& final(self).cache_state() == old(self).cache_state()
                &&& final(self).seen() == old(self).seen()
            },
            !(old(self).is_current_in(store) && old(self).cache_state().stored() is Some) ==> {
                &&& r is Some <==> store.is_live(old(self).source())
                &&& r is None ==> final(self).cache_state() == old(self).cache_state() && final(self).seen() == old(self).seen()
                &&& r is Some ==> {
                    &&& final(self).is_current_in(store)
                    &&& final(self).cache_state().stored() is Some
                    &&& old(self).mapper_fn().ensures(
                        (&store.value(old(self).source()),),
                        final(self).cache_state().stored()->0,
                    )
                    &&& cloned(final(self).cache_state().stored()->0, r->0)
                }
            },
    {
        let count = store.change_count(self.source);
        if count == self.seen {
            match self.cache.get() {
                Some(v) => {
                    return Some(v.clone());
                },
                None => {},
            }
        }
        let entity: Entity<T> = Entity::new(self.source);
        let mapper = &self.mapper;
        proof {
            let t = &store.value(self.source);
            assert(old(self).mapper_fn().requires((t,)));
        }
        let read = store.read(
            &entity,
            (|s: &T| -> (out: R)
                requires
                    mapper.requires((s,)),
                ensures
                    mapper.ensures((s,), out),
                { mapper(s) }),
        );
        match read {
            Some(value) => {
                let out = value.clone();
                self.cache.set(value);
                self.seen = count;
                Some(out)
            },
            None => None,
        }
    }

    /// Mark the cached value stale; the next read recomputes it.
    pub fn invalidate(&mut self)
        ensures
            !final(self).cache_state().is_current(),
            final(self).cache_state().stored() == old(self).cache_state().stored(),
            final(self).source() == old(self).source(),
            final(self).mapper_fn() == old(self).mapper_fn(),
            final(self).subscription() == old(self).subscription(),
            final(self).seen() == old(self).seen(),
    {
        self.cache.invalidate();
    }

    /// Whether the cached value is current in `store`.
    pub fn is_valid<T, C: FnMut()>(&self, store: &EntityStore<T, C>) -> (r: bool)
        ensures
            r == self.is_current_in(store),
    {
        self.cache.is_valid() && self.seen == store.change_count(self.source)
    }

    /// The source entity's id.
    pub fn source_id(&self) -> (r: EntityId)
        ensures
            r == self.source(),
    {
        self.source
    }

    /// Stop deriving: remove the subscription from `store`.
    pub fn release<T, C: FnMut()>(self, store: &mut EntityStore<T, C>)
        requires
            old(store).wf(),
        ensures
            final(store).wf(),
            final(store).registry().subscriptions() == crate::entity::observe::without_id(
                old(store).registry().subscriptions(),
                self.subscription(),
            ),
            final(store).registry().pending() == old(store).registry().pending(),
            final(store).registry().invalidation() == old(store).registry().invalidation(),
            final(store).registry().counts() == old(store).registry().counts(),
            final(store).slots() == old(store).slots(),
            final(store).free_slots() == old(store).free_slots(),
            final(store).pending_cleanup() == old(store).pending_cleanup(),
    {
        store.unsubscribe(self.subscription_id);
    }
}

/// Derive a value from `source` by `mapper`; see [`Computed::new`].
pub fn computed<T, R: Clone, M, C: FnMut()>(
    store: &mut EntityStore<T, C>,
    source: &Entity<T>,
    mapper: M,
    on_change: C,
    id: SubscriptionId,
) -> (c: Computed<R, M>)
    where M: Fn(&T) -> R,
    requires
        old(store).wf(),
        fresh_id(old(store).registry().subscriptions(), id),
    ensures
        final(store).wf(),
        c.source() == source@,
        c.mapper_fn() == mapper,
        c.cache_state().stored() is None,
        !c.cache_state().is_current(),
        c.subscription() == id,
        final(store).registry().subscriptions() == old(store).registry().subscriptions().push((source@, c.subscription())),
        final(store).registry().callbacks() == old(store).registry().callbacks().push(on_change),
        final(store).registry().pending() == old(store).registry().pending(),
        final(store).registry().invalidation() == old(store).registry().invalidation(),
        final(store).registry().counts() == old(store).registry().counts(),
        final(store).slots() == old(store).slots(),
        final(store).free_slots() == old(store).free_slots(),
        final(store).pending_cleanup() == old(store).pending_cleanup(),
{
    Computed::new(store, source, mapper, on_change, id)
}

proof fn lemma_ids_for_has(subs: Seq<(EntityId, SubscriptionId)>, e: EntityId, sid: SubscriptionId)
    requires
        subs.contains((e, sid)),
    ensures
        ids_for(subs, e).contains(sid),
    decreases subs.len(),
{
    let rest = ids_for(subs.drop_last(), e);
    if subs.last() == (e, sid) {
        assert(ids_for(subs, e) == rest.push(sid));
        assert(ids_for(subs, e)[rest.len() as int] == sid);
    } else {
        let k = choose|k: int| 0 <= k < subs.len() && subs[k] == (e, sid);
        assert(k < subs.len() - 1);
        assert(subs.drop_last()[k] == (e, sid));
        lemma_ids_for_has(subs.drop_last(), e, sid);
        let j = choose|j: int| 0 <= j < rest.len() && rest[j] == sid;
        if subs.last().0 == e {
            assert(ids_for(subs, e)[j] == sid);
        }
    }
}

/// Law: a change of its source makes a computed value stale.  If the value
/// is current in a store that holds its subscription, then once the source
/// is updated (marked changed) and the store's changes are flushed, the
/// value is no longer current, so the next read recomputes it from the
/// source's new state.
pub proof fn law_source_change_stales_computed<R: Clone, M, T, C: FnMut()>(
    c: Computed<R, M>,
    before: EntityStore<T, C>,
    updated: EntityStore<T, C>,
    flushed: EntityStore<T, C>,
)
    requires
        c.is_current_in(&before),
        before.registry().subscriptions().contains((c.source(), c.subscription())),
        before.registry().marked_changed(updated.registry(), c.source()),
        forall|e: EntityId| #[trigger] flushed.registry().change_count(e) == if updated.registry().pending().contains(e) {
            updated.registry().change_count(e).wrapping_add(1)
        } else {
            updated.registry().change_count(e)
        },
    ensures
        !c.is_current_in(&flushed),
{
    lemma_ids_for_has(before.registry().subscriptions(), c.source(), c.subscription());
    let p = before.registry().pending();
    if !p.contains(c.source()) {
        assert(updated.registry().pending()[p.len() as int] == c.source());
    }
    assert(flushed.registry().change_count(c.source()) == updated.registry().change_count(c.source()).wrapping_add(1));
}

} // verus!
