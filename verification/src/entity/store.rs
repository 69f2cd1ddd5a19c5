//! Slot-based storage for entity state.
//!
//! Entities live in slots that are reused after the last reference is
//! released; each reuse bumps the slot's generation, so a handle to the old
//! entity is recognised as stale and never reads the new one.

use vstd::prelude::*;
use crate::entity::{Entity, EntityId};
use crate::entity::observe::{
    callbacks_callable, changed_callbacks_ran, fresh_id, other_callbacks_kept, ObserverRegistry,
    SubscriptionId, notified, without_entity, without_id,
};

verus! {

/// A slot in the entity store.
pub struct EntitySlot<T> {
    /// The stored state, if the slot is occupied
    pub data: Option<T>,
    /// Current generation of the slot
    pub generation: u32,
    /// Number of live handles
    pub ref_count: u32,
}

impl<T> EntitySlot<T> {
    /// An empty slot of generation 0.
    pub fn new() -> (s: Self)
        ensures
            s.data is None,
            s.generation == 0,
            s.ref_count == 0,
    {
        EntitySlot { data: None, generation: 0, ref_count: 0 }
    }

    /// Whether the slot holds no state.
    pub fn is_empty(&self) -> (r: bool)
        ensures
            r == (self.data is None),
    {
        self.data.is_none()
    }

    /// Whether the slot holds state of the given generation.
    pub fn is_valid(&self, generation: u32) -> (r: bool)
        ensures
            r == (self.data is Some && self.generation == generation),
    {
        self.data.is_some() && self.generation == generation
    }
}

/// Apply `f` to `x`.
fn apply_mut<T, R>(x: &mut T, f: impl FnOnce(&mut T) -> R) -> (r: R)
    requires
        forall|m: &mut T| *m == *old(x) ==> f.requires((m,)),
    ensures
        exists|m: &mut T| *m == *old(x) && *final(m) == *final(x) && f.ensures((m,), r),
{
    f(x)
}

/// Number of occupied slots.
pub open spec fn occupied_count<T>(slots: Seq<EntitySlot<T>>) -> nat
    decreases slots.len(),
{
    if slots.len() == 0 {
        0
    } else {
        occupied_count(slots.drop_last()) + if slots.last().data is Some { 1nat } else { 0nat }
    }
}

/// The slots freed by a cleanup of the queued indices `pending`: each queued
/// index, in queue order and once, whose slot is occupied with no reference left.
pub open spec fn freed_in_order<T>(slots: Seq<EntitySlot<T>>, pending: Seq<u32>) -> Seq<u32>
    decreases pending.len(),
{
    if pending.len() == 0 {
        Seq::empty()
    } else {
        let rest = freed_in_order(slots, pending.drop_last());
        let i = pending.last();
        if (i as int) < slots.len() && slots[i as int].ref_count == 0 && slots[i as int].data is Some
            && !rest.contains(i) {
            rest.push(i)
        } else {
            rest
        }
    }
}

/// The ids of the entities held by the slots `indices` before they were freed.
pub open spec fn freed_ids<T>(slots: Seq<EntitySlot<T>>, indices: Seq<u32>) -> Seq<EntityId> {
    indices.map_values(|i: u32| EntityId { index: i, generation: slots[i as int].generation })
}

/// The subscriptions left after removing those of each entity of `es`.
pub open spec fn without_entities(
    subs: Seq<(EntityId, SubscriptionId)>,
    es: Seq<EntityId>,
) -> Seq<(EntityId, SubscriptionId)>
    decreases es.len(),
{
    if es.len() == 0 {
        subs
    } else {
        without_entity(without_entities(subs, es.drop_last()), es.last())
    }
}

/// Every occupied slot of `slots` with no reference left is queued in `pending`.
pub open spec fn unreferenced_queued<T>(slots: Seq<EntitySlot<T>>, pending: Seq<u32>) -> bool {
    forall|i: int| 0 <= i < slots.len() && #[trigger] slots[i].data is Some && slots[i].ref_count == 0
        ==> pending.contains(i as u32)
}

/// A slot after it was freed: empty, with its generation advanced.
pub open spec fn freed_slot<T>(s: EntitySlot<T>) -> EntitySlot<T> {
    EntitySlot { data: None, generation: s.generation.wrapping_add(1), ref_count: s.ref_count }
}

/// Storage for all entities of one state type `T`; `C` is the type of the
/// observer callbacks.
pub struct EntityStore<T, C> {
    slots: Vec<EntitySlot<T>>,
    free_list: Vec<u32>,
    pending_cleanup: Vec<u32>,
    observers: ObserverRegistry<C>,
}

impl<T, C: FnMut()> EntityStore<T, C> {
    /// The slots, by index.
    pub closed spec fn slots(&self) -> Seq<EntitySlot<T>> {
        self.slots@
    }

    /// Indices of free slots; the last one is reused first.
    pub closed spec fn free_slots(&self) -> Seq<u32> {
        self.free_list@
    }

    /// Slot indices whose reference count dropped to zero since the last cleanup.
    pub closed spec fn pending_cleanup(&self) -> Seq<u32> {
        self.pending_cleanup@
    }

    /// The observer registry.
    pub closed spec fn registry(&self) -> ObserverRegistry<C> {
        self.observers
    }

    /// Whether `id` names an entity currently stored.
    pub open spec fn is_live(&self, id: EntityId) -> bool {
        &&& (id.index as int) < self.slots().len()
        &&& self.slots()[id.index as int].data is Some
        &&& self.slots()[id.index as int].generation == id.generation
    }

    /// The state of the live entity `id`.
    pub open spec fn value(&self, id: EntityId) -> T {
        self.slots()[id.index as int].data->0
    }

    /// Whether a new entity can be given a slot: one is free, or a new
    /// index still fits in a `u32`.
    pub open spec fn can_allocate(&self) -> bool {
        self.free_slots().len() > 0 || self.slots().len() <= u32::MAX
    }

    /// `after` is this store after creating entity `id` with state `value`:
    /// the most recently freed slot is reused with its current generation, or,
    /// with none free, a new slot of generation 0 is appended; the entity holds
    /// one reference; nothing else changes.
    pub open spec fn created(self, after: Self, id: EntityId, value: T) -> bool {
        &&& self.free_slots().len() > 0 ==> {
            &&& id.index == self.free_slots().last()
            &&& id.generation == self.slots()[id.index as int].generation
            &&& after.free_slots() == self.free_slots().drop_last()
            &&& after.slots() == self.slots().update(
                id.index as int,
                (EntitySlot { data: Some(value), generation: id.generation, ref_count: 1 }),
            )
        }
        &&& self.free_slots().len() == 0 ==> {
            &&& id.index as int == self.slots().len()
            &&& id.generation == 0
            &&& after.free_slots() == self.free_slots()
            &&& after.slots() == self.slots().push(
                (EntitySlot { data: Some(value), generation: 0, ref_count: 1 }),
            )
        }
        &&& after.pending_cleanup() == self.pending_cleanup()
        &&& after.registry() == self.registry()
    }

    /// `after` is this store after a reference was added to `id`: a live
    /// entity's count goes up by one (saturating), nothing else changes.
    pub open spec fn ref_added(self, after: Self, id: EntityId) -> bool {
        &&& after.free_slots() == self.free_slots()
        &&& after.pending_cleanup() == self.pending_cleanup()
        &&& after.registry() == self.registry()
        &&& !self.is_live(id) ==> after.slots() == self.slots()
        &&& self.is_live(id) ==> after.slots() == self.slots().update(
            id.index as int,
            (EntitySlot {
                ref_count: self.slots()[id.index as int].ref_count.saturating_add(1),
                ..self.slots()[id.index as int]
            }),
        )
    }

    /// `after` holds this store's slots after a cleanup: each queued slot
    /// that is occupied with no reference left is freed (once, in queue order)
    /// and appended to the free list; every other slot is unchanged; the
    /// queue is emptied.
    pub open spec fn cleaned(self, after: Self) -> bool {
        let freed = freed_in_order(self.slots(), self.pending_cleanup());
        &&& after.free_slots() == self.free_slots() + freed
        &&& after.pending_cleanup() == Seq::<u32>::empty()
        &&& after.slots().len() == self.slots().len()
        &&& forall|i: int| 0 <= i < self.slots().len() ==> #[trigger] after.slots()[i] == (
            if freed.contains(i as u32) {
                freed_slot(self.slots()[i])
            } else {
                self.slots()[i]
            })
    }

    /// The store's invariant: slot indices fit in a `u32`, the free list
    /// holds each empty slot exactly once, and every stored entity with no
    /// reference left is queued for the next cleanup.
    pub closed spec fn wf(&self) -> bool {
        &&& self.observers.wf()
        &&& self.slots@.len() <= u32::MAX + 1
        &&& self.free_list@.no_duplicates()
        &&& forall|k: int| 0 <= k < self.free_list@.len() ==> (self.free_list@[k] as int) < self.slots@.len()
        &&& forall|i: int| 0 <= i < self.slots@.len() ==>
                (#[trigger] self.slots@[i].data is None <==> self.free_list@.contains(i as u32))
        &&& unreferenced_queued(self.slots@, self.pending_cleanup@)
    }

    /// Create an empty store.
    pub fn new() -> (s: Self)
        ensures
            s.wf(),
            s.slots() == Seq::<EntitySlot<T>>::empty(),
            s.free_slots() == Seq::<u32>::empty(),
            s.pending_cleanup() == Seq::<u32>::empty(),
            s.registry().subscriptions() == Seq::<(EntityId, SubscriptionId)>::empty(),
            s.registry().pending() == Seq::<EntityId>::empty(),
            !s.registry().invalidation(),
            s.registry().counts() == Map::<u64, u64>::empty(),
    {
        EntityStore {
            slots: Vec::new(),
            free_list: Vec::new(),
            pending_cleanup: Vec::new(),
            observers: ObserverRegistry::new(),
        }
    }
}


impl<T, C: FnMut()> EntityStore<T, C> {
    /// Pick a slot for a new entity: the most recently freed one, else a new
    /// slot at the end.
    fn allocate_slot(&mut self) -> (r: (u32, u32))
        requires
            old(self).wf(),
            old(self).can_allocate(),
        ensures
            old(self).free_slots().len() > 0 ==> {
                &&& r.0 == old(self).free_slots().last()
                &&& r.1 == old(self).slots()[r.0 as int].generation
                &&& final(self).free_slots() == old(self).free_slots().drop_last()
                &&& final(self).slots() == old(self).slots()
            },
            old(self).free_slots().len() == 0 ==> {
                &&& r.0 as int == old(self).slots().len()
                &&& r.1 == 0
                &&& final(self).free_slots() == old(self).free_slots()
                &&& final(self).slots() == old(self).slots().push((EntitySlot { data: None, generation: 0, ref_count: 0 }))
            },
            final(self).pending_cleanup() == old(self).pending_cleanup(),
            final(self).registry() == old(self).registry(),
    {
        if let Some(index) = self.free_list.pop() {
            let generation = self.slots[index as usize].generation;
            (index, generation)
        } else {
            let index = self.slots.len() as u32;
            self.slots.push(EntitySlot::new());
            (index, 0)
        }
    }

    /// Create a new entity holding `value`, with one reference.
    pub fn create(&mut self, value: T) -> (e: Entity<T>)
        requires
            old(self).wf(),
            old(self).can_allocate(),
        ensures
            final(self).wf(),
            final(self).slots().len() >= old(self).slots().len(),
            old(self).created(*final(self), e@, value),
    {
        let (index, generation) = self.allocate_slot();
        let ghost mid = self.slots@;
        let slot = EntitySlot { data: Some(value), generation, ref_count: 1 };
        self.slots.set(index as usize, slot);
        proof {
            let s = self.slots@;
            let f = self.free_list@;
            if old(self).free_list@.len() > 0 {
                let of = old(self).free_list@;
                assert(of =~= f.push(index));
                assert(!f.contains(index)) by {
                    if f.contains(index) {
                        let k = choose|k: int| 0 <= k < f.len() && f[k] == index;
                        assert(of[k] == of[of.len() - 1]);
                    }
                }
                assert forall|k: int| 0 <= k < f.len() implies (f[k] as int) < s.len() by {
                    assert(f[k] == of[k]);
                }
                assert forall|i: int| 0 <= i < s.len() implies
                    (#[trigger] s[i].data is None <==> f.contains(i as u32)) by {
                    if i != index as int {
                        assert(s[i] == old(self).slots@[i]);
                        if of.contains(i as u32) {
                            let k = choose|k: int| 0 <= k < of.len() && of[k] == i as u32;
                            assert(k != of.len() - 1);
                            assert(f[k] == i as u32);
                        }
                        if f.contains(i as u32) {
                            let k = choose|k: int| 0 <= k < f.len() && f[k] == i as u32;
                            assert(of[k] == i as u32);
                        }
                    }
                }
                assert(s =~= old(self).slots@.update(index as int, slot));
            } else {
                assert forall|i: int| 0 <= i < s.len() implies
                    (#[trigger] s[i].data is None <==> f.contains(i as u32)) by {
                    if i != index as int {
                        assert(s[i] == old(self).slots@[i]);
                    } else {
                        assert(!f.contains(i as u32)) by {
                            if f.contains(i as u32) {
                                let k = choose|k: int| 0 <= k < f.len() && f[k] == i as u32;
                            }
                        }
                    }
                }
                assert(s =~= old(self).slots@.push(slot));
            }
        }
        Entity::new(EntityId::new(index, generation))
    }
}


impl<T, C: FnMut()> EntityStore<T, C> {
    /// Read the state of `entity` through `f`; `None` if the entity is stale
    /// or was never stored.
    pub fn read<R>(&self, entity: &Entity<T>, f: impl FnOnce(&T) -> R) -> (r: Option<R>)
        requires
            self.is_live(entity@) ==> f.requires((&self.value(entity@),)),
        ensures
            r is Some <==> self.is_live(entity@),
            r is Some ==> f.ensures((&self.value(entity@),), r->0),
    {
        let id = entity.id();
        let i = id.index() as usize;
        if i >= self.slots.len() {
            return None;
        }
        let slot = &self.slots[i];
        if !slot.is_valid(id.generation()) {
            return None;
        }
        match &slot.data {
            Some(v) => Some(f(v)),
            None => None,
        }
    }

    /// Update the state of `entity` through `f` and mark the entity as
    /// changed for its observers; `None` (and no change) if the entity is
    /// stale or was never stored.
    pub fn update<R>(&mut self, entity: &Entity<T>, f: impl FnOnce(&mut T) -> R) -> (r: Option<R>)
        requires
            old(self).wf(),
            old(self).is_live(entity@) ==> forall|m: &mut T|
                *m == old(self).value(entity@) ==> f.requires((m,)),
        ensures
            final(self).wf(),
            final(self).slots().len() >= old(self).slots().len(),
            r is Some <==> old(self).is_live(entity@),
            final(self).free_slots() == old(self).free_slots(),
            final(self).pending_cleanup() == old(self).pending_cleanup(),
            !old(self).is_live(entity@) ==> {
                &&& final(self).slots() == old(self).slots()
                &&& final(self).registry() == old(self).registry()
            },
            old(self).is_live(entity@) ==> {
                &&& old(self).registry().marked_changed(final(self).registry(), entity@)
                &&& exists|m: &mut T| {
                    &&& *m == old(self).value(entity@)
                    &&& f.ensures((m,), r->0)
                    &&& final(self).slots() == old(self).slots().update(
                        entity@.index as int,
                        (EntitySlot {
                            data: Some(*final(m)),
                            generation: entity@.generation,
                            ref_count: old(self).slots()[entity@.index as int].ref_count,
                        }),
                    )
                }
            },
    {
        let id = entity.id();
        let i = id.index() as usize;
        if i >= self.slots.len() {
            return None;
        }
        if !self.slots[i].is_valid(id.generation()) {
            return None;
        }
        let ghost before = self.slots@;
        let mut slot = EntitySlot::new();
            std::mem::swap(&mut slot, &mut self.slots[i]);
        let mut value = slot.data.take().unwrap();
        let ghost v0 = value;
        let result = apply_mut(&mut value, f);
        slot.data = Some(value);
        self.slots.set(i, slot);
        proof {
            assert(self.slots@ =~= before.update(i as int, slot));
            assert forall|j: int| 0 <= j < self.slots@.len() implies
                (#[trigger] self.slots@[j].data is None <==> self.free_list@.contains(j as u32)) by {
                if j != i as int {
                    assert(self.slots@[j] == before[j]);
                }
            }
        }
        self.observers.mark_changed(id);
        proof {
            let m = choose|m: &mut T| *m == v0 && *final(m) == value && f.ensures((m,), result);
            assert(self.slots@ == old(self).slots@.update(
                i as int,
                (EntitySlot { data: Some(*final(m)), generation: id.generation, ref_count: old(self).slots@[i as int].ref_count }),
            ));
        }
        Some(result)
    }

    /// Add a reference to the live entity `id`; saturates at `u32::MAX`.
    pub fn increment_ref(&mut self, id: EntityId)
        requires
            old(self).wf(),
        ensures
            final(self).wf(),
            final(self).slots().len() >= old(self).slots().len(),
            final(self).free_slots() == old(self).free_slots(),
            final(self).pending_cleanup() == old(self).pending_cleanup(),
            final(self).registry() == old(self).registry(),
            !old(self).is_live(id) ==> final(self).slots() == old(self).slots(),
            old(self).is_live(id) ==> final(self).slots() == old(self).slots().update(
                id.index as int,
                (EntitySlot {
                    ref_count: old(self).slots()[id.index as int].ref_count.saturating_add(1),
                    ..old(self).slots()[id.index as int]
                }),
            ),
            old(self).ref_added(*final(self), id),
    {
        let i = id.index() as usize;
        if i < self.slots.len() && self.slots[i].is_valid(id.generation()) {
            let ghost before = self.slots@;
            let mut slot = EntitySlot::new();
            std::mem::swap(&mut slot, &mut self.slots[i]);
            slot.ref_count = slot.ref_count.saturating_add(1);
            self.slots.set(i, slot);
            proof {
                assert(self.slots@ =~= before.update(i as int, slot));
                assert forall|j: int| 0 <= j < self.slots@.len() implies
                    (#[trigger] self.slots@[j].data is None <==> self.free_list@.contains(j as u32)) by {
                    if j != i as int {
                        assert(self.slots@[j] == before[j]);
                    }
                }
            }
        }
    }

    /// Release a reference to the live entity `id` (saturating at zero); when
    /// none is left the slot is queued for the next cleanup.
    pub fn decrement_ref(&mut self, id: EntityId)
        requires
            old(self).wf(),
        ensures
            final(self).wf(),
            final(self).slots().len() >= old(self).slots().len(),
            final(self).free_slots() == old(self).free_slots(),
            final(self).registry() == old(self).registry(),
            !old(self).is_live(id) ==> {
                &&& final(self).slots() == old(self).slots()
                &&& final(self).pending_cleanup() == old(self).pending_cleanup()
            },
            old(self).is_live(id) ==> {
                let rc = old(self).slots()[id.index as int].ref_count.saturating_sub(1);
                &&& final(self).slots() == old(self).slots().update(
                    id.index as int,
                    (EntitySlot { ref_count: rc, ..old(self).slots()[id.index as int] }),
                )
                &&& final(self).pending_cleanup() == (if rc == 0 {
                    old(self).pending_cleanup().push(id.index)
                } else {
                    old(self).pending_cleanup()
                })
            },
    {
        let i = id.index() as usize;
        if i < self.slots.len() && self.slots[i].is_valid(id.generation()) {
            let ghost before = self.slots@;
            let mut slot = EntitySlot::new();
            std::mem::swap(&mut slot, &mut self.slots[i]);
            slot.ref_count = slot.ref_count.saturating_sub(1);
            let now_zero = slot.ref_count == 0;
            self.slots.set(i, slot);
            proof {
                assert(self.slots@ =~= before.update(i as int, slot));
                assert forall|j: int| 0 <= j < self.slots@.len() implies
                    (#[trigger] self.slots@[j].data is None <==> self.free_list@.contains(j as u32)) by {
                    if j != i as int {
                        assert(self.slots@[j] == before[j]);
                    }
                }
            }
            let ghost queue = self.pending_cleanup@;
            if now_zero {
                self.pending_cleanup.push(id.index());
            }
            proof {
                assert forall|j: int|
                    0 <= j < self.slots@.len() && #[trigger] self.slots@[j].data is Some && self.slots@[j].ref_count == 0
                    implies self.pending_cleanup@.contains(j as u32) by {
                    if j != i as int {
                        assert(self.slots@[j] == before[j]);
                        assert(queue.contains(j as u32));
                        if now_zero {
                            let w = choose|w: int| 0 <= w < queue.len() && queue[w] == j as u32;
                            assert(self.pending_cleanup@[w] == j as u32);
                        }
                    } else {
                        assert(self.pending_cleanup@[self.pending_cleanup@.len() - 1] == id.index);
                    }
                }
            }
        }
    }
}


impl<T, C: FnMut()> EntityStore<T, C> {
    /// Frame-boundary cleanup: first notify the observers of changed
    /// entities, running their callbacks, then free every queued slot whose entity still has no
    /// reference, dropping its state and subscriptions and advancing its
    /// generation.  Returns the notified subscriptions in notification order.
    pub fn cleanup(&mut self) -> (notified_ids: Vec<SubscriptionId>)
        requires
            old(self).wf(),
            callbacks_callable(old(self).registry().callbacks()),
        ensures
            final(self).wf(),
            final(self).slots().len() >= old(self).slots().len(),
            notified_ids@ == notified(old(self).registry().pending(), old(self).registry().subscriptions()),
            changed_callbacks_ran(
                old(self).registry().subscriptions(),
                old(self).registry().pending(),
                old(self).registry().callbacks(),
            ),
            forall|e: EntityId| #[trigger] final(self).registry().change_count(e) == if old(self).registry().pending().contains(e) {
                old(self).registry().change_count(e).wrapping_add(1)
            } else {
                old(self).registry().change_count(e)
            },
            final(self).registry().subscriptions() == without_entities(
                old(self).registry().subscriptions(),
                freed_ids(old(self).slots(), freed_in_order(old(self).slots(), old(self).pending_cleanup())),
            ),
            final(self).registry().pending() == Seq::<EntityId>::empty(),
            !final(self).registry().invalidation(),
            old(self).cleaned(*final(self)),
    {
        let notified_ids = self.observers.flush();
        let ghost subs0 = self.observers.subscriptions();
        let ghost counts1 = self.observers.counts();
        let ghost flushed = self.observers;
        let ghost slots0 = old(self).slots@;
        let ghost free0 = old(self).free_list@;
        let mut queue: Vec<u32> = Vec::new();
        std::mem::swap(&mut queue, &mut self.pending_cleanup);
        let ghost pend = queue@;
        let mut k: usize = 0;
        while k < queue.len()
            invariant
                queue@ == pend,
                pend == old(self).pending_cleanup@,
                k <= pend.len(),
                slots0 == old(self).slots@,
                free0 == old(self).free_list@,
                old(self).wf(),
                self.observers.wf(),
                self.observers.counts() == counts1,
                self.pending_cleanup@ == Seq::<u32>::empty(),
                self.observers.pending() == Seq::<EntityId>::empty(),
                !self.observers.invalidation(),
                self.observers.subscriptions() == without_entities(subs0, freed_ids(slots0, freed_in_order(slots0, pend.take(k as int)))),
                self.free_list@ == free0 + freed_in_order(slots0, pend.take(k as int)),
                self.slots@.len() == slots0.len(),
                forall|i: int| 0 <= i < slots0.len() ==> #[trigger] self.slots@[i] == (
                    if freed_in_order(slots0, pend.take(k as int)).contains(i as u32) {
                        freed_slot(slots0[i])
                    } else {
                        slots0[i]
                    }),
            decreases pend.len() - k,
        {
            let index = queue[k];
            let ghost r = freed_in_order(slots0, pend.take(k as int));
            proof {
                assert(pend.take(k + 1).drop_last() =~= pend.take(k as int));
                assert(pend.take(k + 1).last() == index);
            }
            let i = index as usize;
            if i < self.slots.len() && self.slots[i].ref_count == 0 && self.slots[i].data.is_some() {
                proof {
                    if r.contains(index) {
                        assert(self.slots@[i as int] == freed_slot(slots0[i as int]));
                    }
                    assert(!r.contains(index));
                    assert(self.slots@[i as int] == slots0[i as int]);
                }
                let generation = self.slots[i].generation;
                let ghost subs_before = self.observers.subscriptions();
                self.observers.unsubscribe_all(EntityId::new(index, generation));
                let ghost before = self.slots@;
                let mut slot = EntitySlot::new();
                std::mem::swap(&mut slot, &mut self.slots[i]);
                slot.data = None;
                slot.generation = slot.generation.wrapping_add(1);
                self.slots.set(i, slot);
                self.free_list.push(index);
                proof {
                    let r2 = freed_in_order(slots0, pend.take(k + 1));
                    assert(r2 == r.push(index));
                    let ids = freed_ids(slots0, r);
                    let ids2 = freed_ids(slots0, r2);
                    assert(ids2.drop_last() =~= ids);
                    assert(ids2.last() == EntityId { index, generation });
                    assert(self.free_list@ =~= free0 + r2);
                    assert forall|j: int| 0 <= j < slots0.len() implies #[trigger] self.slots@[j] == (
                        if r2.contains(j as u32) { freed_slot(slots0[j]) } else { slots0[j] }) by {
                        if j == i as int {
                            assert(r2.contains(index)) by { assert(r2[r2.len() - 1] == index); }
                        } else {
                            assert(self.slots@[j] == before[j]);
                            if r2.contains(j as u32) {
                                let w = choose|w: int| 0 <= w < r2.len() && r2[w] == j as u32;
                                if w < r.len() {
                                    assert(r[w] == j as u32);
                                }
                            }
                            if r.contains(j as u32) {
                                let w = choose|w: int| 0 <= w < r.len() && r[w] == j as u32;
                                assert(r2[w] == j as u32);
                            }
                        }
                    }
                }
            } else {
                proof {
                    let r2 = freed_in_order(slots0, pend.take(k + 1));
                    if !r.contains(index) && (index as int) < slots0.len() {
                        assert(self.slots@[index as int] == slots0[index as int]);
                    }
                    assert(r2 == r);
                }
            }
            k = k + 1;
        }
        proof {
            assert(pend.take(k as int) =~= pend);
            let fr = freed_in_order(slots0, pend);
            lemma_freed_facts(slots0, pend);
            let f = self.free_list@;
            assert(f =~= free0 + fr);
            assert(f.no_duplicates()) by {
                assert forall|a: int, b: int| 0 <= a < b < f.len() implies f[a] != f[b] by {
                    if b < free0.len() {
                    } else if a >= free0.len() {
                        assert(f[a] == fr[a - free0.len()]);
                        assert(f[b] == fr[b - free0.len()]);
                    } else {
                        assert(f[b] == fr[b - free0.len()]);
                        let x = fr[b - free0.len()];
                        assert(slots0[x as int].data is Some);
                        assert(free0.contains(f[a]));
                    }
                }
            }
            assert forall|q: int| 0 <= q < f.len() implies (f[q] as int) < self.slots@.len() by {
                if q >= free0.len() {
                    assert(f[q] == fr[q - free0.len()]);
                }
            }
            assert forall|i: int|
                0 <= i < self.slots@.len() && #[trigger] self.slots@[i].data is Some && self.slots@[i].ref_count == 0
                implies self.pending_cleanup@.contains(i as u32) by {
                if !fr.contains(i as u32) {
                    assert(self.slots@[i] == slots0[i]);
                    assert(pend.contains(i as u32));
                    lemma_freed_contains(slots0, pend, i as u32);
                }
            }
            assert forall|i: int| 0 <= i < self.slots@.len() implies
                (#[trigger] self.slots@[i].data is None <==> f.contains(i as u32)) by {
                if fr.contains(i as u32) {
                    let w = choose|w: int| 0 <= w < fr.len() && fr[w] == i as u32;
                    assert(f[free0.len() + w] == i as u32);
                } else {
                    assert(self.slots@[i] == slots0[i]);
                    if f.contains(i as u32) {
                        let w = choose|w: int| 0 <= w < f.len() && f[w] == i as u32;
                        if w >= free0.len() {
                            assert(fr[w - free0.len()] == i as u32);
                        } else {
                            assert(free0.contains(i as u32));
                        }
                    }
                    if free0.contains(i as u32) {
                        let w = choose|w: int| 0 <= w < free0.len() && free0[w] == i as u32;
                        assert(f[w] == i as u32);
                    }
                }
            }
        }
        assert forall|e: EntityId| #[trigger] self.observers.change_count(e) == flushed.change_count(e) by {}
        notified_ids
    }
}

impl<T, C: FnMut()> EntityStore<T, C> {
    /// Subscribe `callback` to changes of `entity` under the id `id`, which
    /// no subscription carries yet (the caller draws it from a counter shared
    /// by all stores); returns that id.
    pub fn subscribe(&mut self, entity: &Entity<T>, callback: C, id: SubscriptionId) -> (r: SubscriptionId)
        requires
            old(self).wf(),
            fresh_id(old(self).registry().subscriptions(), id),
        ensures
            final(self).wf(),
            r == id,
            final(self).registry().subscriptions() == old(self).registry().subscriptions().push((entity@, id)),
            final(self).registry().callbacks() == old(self).registry().callbacks().push(callback),
            final(self).registry().pending() == old(self).registry().pending(),
            final(self).registry().invalidation() == old(self).registry().invalidation(),
            final(self).registry().counts() == old(self).registry().counts(),
            final(self).slots() == old(self).slots(),
            final(self).free_slots() == old(self).free_slots(),
            final(self).pending_cleanup() == old(self).pending_cleanup(),
    {
        self.observers.subscribe(entity.id(), callback, id)
    }

    /// Remove subscription `subscription_id`.
    pub fn unsubscribe(&mut self, subscription_id: SubscriptionId)
        requires
            old(self).wf(),
        ensures
            final(self).wf(),
            final(self).registry().subscriptions() == without_id(old(self).registry().subscriptions(), subscription_id),
            final(self).registry().pending() == old(self).registry().pending(),
            final(self).registry().invalidation() == old(self).registry().invalidation(),
            final(self).registry().counts() == old(self).registry().counts(),
            final(self).slots() == old(self).slots(),
            final(self).free_slots() == old(self).free_slots(),
            final(self).pending_cleanup() == old(self).pending_cleanup(),
    {
        self.observers.unsubscribe(subscription_id);
    }

    /// Whether UI invalidation has been requested by a change of an observed entity.
    pub fn invalidation_requested(&self) -> (r: bool)
        ensures
            r == self.registry().invalidation(),
    {
        self.observers.invalidation_requested()
    }

    /// Clear the invalidation request.
    pub fn clear_invalidation(&mut self)
        requires
            old(self).wf(),
        ensures
            final(self).wf(),
            !final(self).registry().invalidation(),
            final(self).registry().subscriptions() == old(self).registry().subscriptions(),
            final(self).registry().callbacks() == old(self).registry().callbacks(),
            final(self).registry().pending() == old(self).registry().pending(),
            final(self).registry().counts() == old(self).registry().counts(),
            final(self).slots() == old(self).slots(),
            final(self).free_slots() == old(self).free_slots(),
            final(self).pending_cleanup() == old(self).pending_cleanup(),
    {
        self.observers.clear_invalidation();
    }

    /// How many flushes reported `id` as changed (wrapping at `u64::MAX`).
    pub fn change_count(&self, id: EntityId) -> (n: u64)
        ensures
            n == self.registry().change_count(id),
    {
        self.observers.changes_of(id)
    }

    /// Whether observed entities changed since the last flush.
    pub fn has_pending_notifications(&self) -> (r: bool)
        ensures
            r == (self.registry().pending().len() > 0),
    {
        self.observers.has_pending_changes()
    }

    /// Notify the observers of changed entities now, running each one's
    /// callback once; returns the notified subscriptions in notification order.
    pub fn flush_notifications(&mut self) -> (notified_ids: Vec<SubscriptionId>)
        requires
            old(self).wf(),
            callbacks_callable(old(self).registry().callbacks()),
        ensures
            final(self).wf(),
            notified_ids@ == notified(old(self).registry().pending(), old(self).registry().subscriptions()),
            changed_callbacks_ran(
                old(self).registry().subscriptions(),
                old(self).registry().pending(),
                old(self).registry().callbacks(),
            ),
            other_callbacks_kept(
                old(self).registry().subscriptions(),
                old(self).registry().pending(),
                old(self).registry().callbacks(),
                final(self).registry().callbacks(),
            ),
            forall|e: EntityId| #[trigger] final(self).registry().change_count(e) == if old(self).registry().pending().contains(e) {
                old(self).registry().change_count(e).wrapping_add(1)
            } else {
                old(self).registry().change_count(e)
            },
            final(self).registry().subscriptions() == old(self).registry().subscriptions(),
            final(self).registry().pending() == Seq::<EntityId>::empty(),
            !final(self).registry().invalidation(),
            final(self).slots() == old(self).slots(),
            final(self).free_slots() == old(self).free_slots(),
            final(self).pending_cleanup() == old(self).pending_cleanup(),
    {
        self.observers.flush()
    }

    /// Number of stored entities.
    pub fn len(&self) -> (n: usize)
        ensures
            n == occupied_count(self.slots()),
    {
        let mut count: usize = 0;
        let mut i: usize = 0;
        while i < self.slots.len()
            invariant
                i <= self.slots@.len(),
                count == occupied_count(self.slots@.take(i as int)),
                count <= i,
            decreases self.slots@.len() - i,
        {
            assert(self.slots@.take(i + 1).drop_last() =~= self.slots@.take(i as int));
            if !self.slots[i].is_empty() {
                count = count + 1;
            }
            i = i + 1;
        }
        assert(self.slots@.take(i as int) =~= self.slots@);
        count
    }

    /// Whether no entity is stored.
    pub fn is_empty(&self) -> (r: bool)
        ensures
            r == (occupied_count(self.slots()) == 0),
    {
        self.len() == 0
    }

    /// Number of slots, occupied or free.
    pub fn capacity(&self) -> (n: usize)
        ensures
            n == self.slots().len(),
    {
        self.slots.len()
    }
}

impl<T, C: FnMut()> Default for EntityStore<T, C> {
    fn default() -> (s: Self)
        ensures
            s.wf(),
            s.slots() == Seq::<EntitySlot<T>>::empty(),
            s.free_slots() == Seq::<u32>::empty(),
            s.pending_cleanup() == Seq::<u32>::empty(),
            s.registry().subscriptions() == Seq::<(EntityId, SubscriptionId)>::empty(),
            s.registry().pending() == Seq::<EntityId>::empty(),
            !s.registry().invalidation(),
            s.registry().counts() == Map::<u64, u64>::empty(),
    {
        Self::new()
    }
}

/// Every slot freed by a cleanup was occupied and unreferenced, within
/// range, and freed only once.
proof fn lemma_freed_facts<T>(slots: Seq<EntitySlot<T>>, pending: Seq<u32>)
    ensures
        freed_in_order(slots, pending).no_duplicates(),
        forall|w: int| 0 <= w < freed_in_order(slots, pending).len() ==> {
            let x = #[trigger] freed_in_order(slots, pending)[w];
            &&& (x as int) < slots.len()
            &&& slots[x as int].data is Some
            &&& slots[x as int].ref_count == 0
        },
    decreases pending.len(),
{
    if pending.len() > 0 {
        lemma_freed_facts(slots, pending.drop_last());
        let rest = freed_in_order(slots, pending.drop_last());
        let fr = freed_in_order(slots, pending);
        if fr != rest {
            assert forall|w: int| 0 <= w < rest.len() implies fr[w] == rest[w] by {}
        }
    }
}

} // verus!

verus! {

/// A queued slot that is occupied with no reference left is freed by a cleanup.
pub proof fn lemma_freed_contains<T>(slots: Seq<EntitySlot<T>>, pending: Seq<u32>, i: u32)
    requires
        pending.contains(i),
        (i as int) < slots.len(),
        slots[i as int].ref_count == 0,
        slots[i as int].data is Some,
    ensures
        freed_in_order(slots, pending).contains(i),
    decreases pending.len(),
{
    let rest = freed_in_order(slots, pending.drop_last());
    let fr = freed_in_order(slots, pending);
    if pending.last() == i {
        if !rest.contains(i) {
            assert(fr[fr.len() - 1] == i);
        } else {
            let w = choose|w: int| 0 <= w < rest.len() && rest[w] == i;
            assert(fr[w] == i);
        }
    } else {
        let k = choose|k: int| 0 <= k < pending.len() && pending[k] == i;
        assert(pending.drop_last()[k] == i);
        lemma_freed_contains(slots, pending.drop_last(), i);
        let w = choose|w: int| 0 <= w < rest.len() && rest[w] == i;
        assert(fr[w] == i);
    }
}

/// Law: a created entity is live with the given state and was not live
/// before; every entity live before stays live with its state, and no other
/// entity becomes live.
pub proof fn law_create_fresh<T, C: FnMut()>(
    before: EntityStore<T, C>,
    after: EntityStore<T, C>,
    id: EntityId,
    value: T,
)
    requires
        before.wf(),
        before.can_allocate(),
        before.created(after, id, value),
    ensures
        after.is_live(id),
        after.value(id) == value,
        !before.is_live(id),
        forall|other: EntityId| #[trigger] before.is_live(other) ==>
            after.is_live(other) && after.value(other) == before.value(other),
        forall|other: EntityId| other != id && !before.is_live(other) ==> !#[trigger] after.is_live(other),
{
    if before.free_slots().len() > 0 {
        let f = before.free_slots();
        assert(f.contains(id.index)) by { assert(f[f.len() - 1] == id.index); }
        assert(before.slots()[id.index as int].data is None);
    }
}

/// Law: a cleanup releases every queued entity with no reference left: its
/// id is no longer live and its slot is free for reuse with a new generation.
pub proof fn law_cleanup_releases<T, C: FnMut()>(
    before: EntityStore<T, C>,
    after: EntityStore<T, C>,
    id: EntityId,
)
    requires
        before.wf(),
        before.cleaned(after),
        before.is_live(id),
        before.slots()[id.index as int].ref_count == 0,
        before.pending_cleanup().contains(id.index),
    ensures
        !after.is_live(id),
        after.free_slots().contains(id.index),
        after.slots()[id.index as int].generation == id.generation.wrapping_add(1),
{
    let fr = freed_in_order(before.slots(), before.pending_cleanup());
    lemma_freed_contains(before.slots(), before.pending_cleanup(), id.index);
    let w = choose|w: int| 0 <= w < fr.len() && fr[w] == id.index;
    assert(after.free_slots()[before.free_slots().len() + w] == id.index);
    assert(after.slots()[id.index as int] == freed_slot(before.slots()[id.index as int]));
}

/// Law: a handle whose slot was freed and reused reads nothing: after a
/// cleanup released `stale`, creating another entity gives it an id other
/// than `stale` and never makes `stale` live again.
pub proof fn law_stale_after_reuse<T, C: FnMut()>(
    before: EntityStore<T, C>,
    cleaned: EntityStore<T, C>,
    after: EntityStore<T, C>,
    stale: EntityId,
    fresh: EntityId,
    value: T,
)
    requires
        before.wf(),
        before.cleaned(cleaned),
        before.is_live(stale),
        before.slots()[stale.index as int].ref_count == 0,
        before.pending_cleanup().contains(stale.index),
        cleaned.wf(),
        cleaned.can_allocate(),
        cleaned.created(after, fresh, value),
    ensures
        !after.is_live(stale),
        fresh != stale,
{
    law_cleanup_releases(before, cleaned, stale);
    law_create_fresh(cleaned, after, fresh, value);
    if fresh == stale {
        assert(cleaned.is_live(stale) == false);
        assert(after.is_live(fresh));
        assert(cleaned.slots()[stale.index as int].generation == stale.generation.wrapping_add(1));
        if cleaned.free_slots().len() > 0 {
            assert(fresh.generation == cleaned.slots()[fresh.index as int].generation);
        }
        let g = stale.generation;
        assert(g.wrapping_add(1) != g) by (bit_vector);
    }
}


/// The count of occupied slots never exceeds the slot count, and reaches it
/// exactly when every slot is occupied.
proof fn lemma_occupied_full<T>(slots: Seq<EntitySlot<T>>)
    ensures
        occupied_count(slots) <= slots.len(),
        occupied_count(slots) == slots.len() <==> forall|i: int| 0 <= i < slots.len() ==> (#[trigger] slots[i]).data is Some,
    decreases slots.len(),
{
    if slots.len() > 0 {
        let init = slots.drop_last();
        lemma_occupied_full(init);
        if occupied_count(slots) == slots.len() {
            assert forall|i: int| 0 <= i < slots.len() implies (#[trigger] slots[i]).data is Some by {
                if i < slots.len() - 1 {
                    assert(init[i] == slots[i]);
                }
            }
        }
        if forall|i: int| 0 <= i < slots.len() ==> (#[trigger] slots[i]).data is Some {
            assert forall|i: int| 0 <= i < init.len() implies (#[trigger] init[i]).data is Some by {
                assert(init[i] == slots[i]);
            }
            assert(slots[slots.len() - 1].data is Some);
        }
    }
}

/// Replacing slot `i` changes the occupied count by what leaves and enters.
pub proof fn lemma_occupied_update<T>(slots: Seq<EntitySlot<T>>, i: int, x: EntitySlot<T>)
    requires
        0 <= i < slots.len(),
    ensures
        occupied_count(slots.update(i, x)) + (if slots[i].data is Some { 1int } else { 0int })
            == occupied_count(slots) + (if x.data is Some { 1int } else { 0int }),
    decreases slots.len(),
{
    let u = slots.update(i, x);
    if i == slots.len() - 1 {
        assert(u.drop_last() =~= slots.drop_last());
    } else {
        lemma_occupied_update(slots.drop_last(), i, x);
        assert(u.drop_last() =~= slots.drop_last().update(i, x));
    }
}

/// In a well-formed store the free list names, once each and within range,
/// exactly the empty slots, and every stored entity with no reference left
/// is queued for the next cleanup.
pub proof fn lemma_free_slots_are_empty<T, C: FnMut()>(store: EntityStore<T, C>)
    requires
        store.wf(),
    ensures
        store.free_slots().no_duplicates(),
        forall|k: int| 0 <= k < store.free_slots().len() ==> (#[trigger] store.free_slots()[k] as int) < store.slots().len(),
        forall|i: int| 0 <= i < store.slots().len() ==>
            (#[trigger] store.slots()[i].data is None <==> store.free_slots().contains(i as u32)),
        unreferenced_queued(store.slots(), store.pending_cleanup()),
{
}

/// Law: creating an entity stores one more.  All slots are occupied exactly
/// when none is free; then a slot is added, else a free one is reused and
/// the slot count stays.
pub proof fn law_create_counts<T, C: FnMut()>(
    before: EntityStore<T, C>,
    after: EntityStore<T, C>,
    id: EntityId,
    value: T,
)
    requires
        before.wf(),
        before.can_allocate(),
        before.created(after, id, value),
    ensures
        occupied_count(after.slots()) == occupied_count(before.slots()) + 1,
        (occupied_count(before.slots()) == before.slots().len()) == (before.free_slots().len() == 0),
        before.free_slots().len() == 0 ==> after.slots().len() == before.slots().len() + 1,
        before.free_slots().len() > 0 ==> after.slots().len() == before.slots().len(),
{
    lemma_occupied_full(before.slots());
    let f = before.free_slots();
    if f.len() > 0 {
        assert(f.contains(id.index)) by { assert(f[f.len() - 1] == id.index); }
        assert(before.slots()[id.index as int].data is None);
        lemma_occupied_update(
            before.slots(),
            id.index as int,
            EntitySlot { data: Some(value), generation: id.generation, ref_count: 1 },
        );
    } else {
        assert(after.slots().drop_last() =~= before.slots());
        assert forall|i: int| 0 <= i < before.slots().len() implies (#[trigger] before.slots()[i]).data is Some by {
            if before.slots()[i].data is None {
                assert(f.contains(i as u32));
            }
        }
    }
}

/// Law: a cleanup leaves no stored entity without a reference: every
/// entity that had none is released, and every other one stays, with its
/// state.
pub proof fn law_cleanup_frees_unreferenced<T, C: FnMut()>(before: EntityStore<T, C>, after: EntityStore<T, C>)
    requires
        before.wf(),
        before.cleaned(after),
    ensures
        forall|i: int| 0 <= i < after.slots().len() && #[trigger] after.slots()[i].data is Some ==> after.slots()[i].ref_count > 0,
        forall|id: EntityId| before.is_live(id) && before.slots()[id.index as int].ref_count == 0 ==> !#[trigger] after.is_live(id),
        forall|id: EntityId| before.is_live(id) && before.slots()[id.index as int].ref_count > 0 ==>
            #[trigger] after.is_live(id) && after.value(id) == before.value(id),
{
    let fr = freed_in_order(before.slots(), before.pending_cleanup());
    lemma_freed_facts(before.slots(), before.pending_cleanup());
    assert forall|i: int| 0 <= i < after.slots().len() && #[trigger] after.slots()[i].data is Some
        implies after.slots()[i].ref_count > 0 by {
        if !fr.contains(i as u32) && before.slots()[i].ref_count == 0 {
            lemma_freed_contains(before.slots(), before.pending_cleanup(), i as u32);
        }
    }
    assert forall|id: EntityId| before.is_live(id) && before.slots()[id.index as int].ref_count == 0
        implies !#[trigger] after.is_live(id) by {
        lemma_freed_contains(before.slots(), before.pending_cleanup(), id.index);
    }
    assert forall|id: EntityId| before.is_live(id) && before.slots()[id.index as int].ref_count > 0
        implies #[trigger] after.is_live(id) && after.value(id) == before.value(id) by {
        if fr.contains(id.index) {
            let w = choose|w: int| 0 <= w < fr.len() && fr[w] == id.index;
        }
    }
}

/// Law: a store never holds more entities than it has slots, so its length
/// never exceeds its capacity.
pub proof fn law_len_within_capacity<T, C: FnMut()>(store: EntityStore<T, C>)
    ensures
        occupied_count(store.slots()) <= store.slots().len(),
{
    lemma_occupied_full(store.slots());
}

/// Law: no store operation shrinks the slot count: creating keeps or grows
/// it, and cleaning up and adding a reference keep it.
pub proof fn law_capacity_never_shrinks<T, C: FnMut()>(
    before: EntityStore<T, C>,
    after: EntityStore<T, C>,
    id: EntityId,
    value: T,
)
    requires
        before.wf(),
    ensures
        before.created(after, id, value) ==> after.slots().len() >= before.slots().len(),
        before.cleaned(after) ==> after.slots().len() == before.slots().len(),
        before.ref_added(after, id) ==> after.slots().len() == before.slots().len(),
{
    let f = before.free_slots();
    if f.len() > 0 {
        assert((f[f.len() - 1] as int) < before.slots().len());
    }
}

} // verus!
