//! Entities: handles to state that persists across frames.

pub mod observe;
pub mod store;
pub mod subscription;
pub mod derived;
pub mod computed;
pub mod state_cell;


use vstd::prelude::*;
use crate::entity::store::{law_create_counts, law_create_fresh, lemma_occupied_update, occupied_count, EntitySlot, EntityStore};
use crate::entity::state_cell::init_or_reuse;

verus! {

/// Unique identifier for an entity: a slot index plus the slot's generation,
/// so that a handle to a freed and reused slot is recognised as stale.
#[derive(Debug, Clone, Copy, PartialEq, Eq, Hash, Structural)]
pub struct EntityId {
    /// Slot index in the entity store
    pub index: u32,
    /// Generation of the slot when the entity was created
    pub generation: u32,
}

impl EntityId {
    /// Create an id from a slot index and a generation.
    pub fn new(index: u32, generation: u32) -> (id: Self)
        ensures
            id.index == index,
            id.generation == generation,
    {
        Self { index, generation }
    }

    /// The slot index.
    pub fn index(&self) -> (r: u32)
        ensures
            r == self.index,
    {
        self.index
    }

    /// The generation.
    pub fn generation(&self) -> (r: u32)
        ensures
            r == self.generation,
    {
        self.generation
    }
}

/// Typed handle to state of type `T` held by an [`store::EntityStore`].
pub struct Entity<T> {
    id: EntityId,
    _marker: core::marker::PhantomData<T>,
}

impl<T> Entity<T> {
    /// Create a handle for the given id.
    pub fn new(id: EntityId) -> (e: Self)
        ensures
            e@ == id,
    {
        Self { id, _marker: core::marker::PhantomData }
    }

    /// The handle's id.
    pub fn id(&self) -> (r: EntityId)
        ensures
            r == self@,
    {
        self.id
    }
}

impl<T> View for Entity<T> {
    type V = EntityId;

    closed spec fn view(&self) -> EntityId {
        self.id
    }
}

/// An entity created on first use, for state that a render pass sets up
/// the first time it runs.
pub struct LazyEntity<T> {
    cell: Option<Entity<T>>,
}

impl<T> LazyEntity<T> {
    /// The entity held, if it was created.
    pub closed spec fn entity(&self) -> Option<EntityId> {
        match self.cell {
            Some(h) => Some(h@),
            None => None,
        }
    }

    /// A holder with no entity yet.
    pub fn new() -> (l: Self)
        ensures
            l.entity() is None,
    {
        LazyEntity { cell: None }
    }

    /// The entity, created from `init()` on the first call; later calls
    /// return the same entity and do not run `init`.  Each handle given out
    /// holds a reference.
    pub fn get_or_init<C: FnMut()>(&mut self, store: &mut EntityStore<T, C>, init: impl FnOnce() -> T) -> (e: Entity<T>)
        requires
            old(store).wf(),
            old(self).entity() is None ==> old(store).can_allocate() && init.requires(()),
        ensures
            final(store).wf(),
            final(self).entity() == Some(e@),
            old(self).entity() matches Some(id) ==> {
                &&& e@ == id
                &&& old(store).ref_added(*final(store), e@)
            },
            old(self).entity() is None ==> exists|v: T, mid: EntityStore<T, C>| {
                &&& init.ensures((), v)
                &&& #[trigger] old(store).created(mid, e@, v)
                &&& mid.ref_added(*final(store), e@)
            },
    {
        init_or_reuse(&mut self.cell, store, init)
    }

    /// Whether the entity was created.
    pub fn is_initialized(&self) -> (r: bool)
        ensures
            r == self.entity() is Some,
    {
        self.cell.is_some()
    }
}

impl<T> Default for LazyEntity<T> {
    fn default() -> (l: Self)
        ensures
            l.entity() is None,
    {
        Self::new()
    }
}

/// Law: lazy initialisation creates one entity, once.  The call that finds
/// nothing stores one new entity holding `init`'s value and hands out a
/// reference to it; a later call only adds a reference to that same
/// entity, which stays live with its value, and stores nothing new.
pub proof fn law_lazy_init_once<T, C: FnMut()>(
    before: EntityStore<T, C>,
    created: EntityStore<T, C>,
    first: EntityStore<T, C>,
    second: EntityStore<T, C>,
    id: EntityId,
    value: T,
)
    requires
        before.wf(),
        before.can_allocate(),
        before.created(created, id, value),
        created.ref_added(first, id),
        first.ref_added(second, id),
    ensures
        !before.is_live(id),
        first.is_live(id) && first.value(id) == value,
        second.is_live(id) && second.value(id) == value,
        occupied_count(first.slots()) == occupied_count(before.slots()) + 1,
        occupied_count(second.slots()) == occupied_count(first.slots()),
{
    law_create_fresh(before, created, id, value);
    law_create_counts(before, created, id, value);
    let c = created.slots()[id.index as int];
    lemma_occupied_update(created.slots(), id.index as int, EntitySlot { ref_count: c.ref_count.saturating_add(1), ..c });
    let f = first.slots()[id.index as int];
    lemma_occupied_update(first.slots(), id.index as int, EntitySlot { ref_count: f.ref_count.saturating_add(1), ..f });
}

} // verus!
