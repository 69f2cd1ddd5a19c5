//! Lazily created entity state: a cell that creates its entity on first use
//! and hands out handles to the same entity afterwards.

use vstd::prelude::*;
use crate::entity::Entity;
use crate::entity::store::EntityStore;

verus! {

/// Give out a handle to the entity in `slot`, creating the entity from
/// `init()` first if the slot is empty.  The slot keeps its own handle, and
/// the handle given out holds a reference of its own.
pub(crate) fn init_or_reuse<T, C: FnMut()>(
    slot: &mut Option<Entity<T>>,
    store: &mut EntityStore<T, C>,
    init: impl FnOnce() -> T,
) -> (e: Entity<T>)
    requires
        old(store).wf(),
        *old(slot) is None ==> old(store).can_allocate() && init.requires(()),
    ensures
        final(store).wf(),
        *final(slot) is Some,
        (*final(slot))->0@ == e@,
        *old(slot) matches Some(h) ==> {
            &&& e@ == h@
            &&& old(store).ref_added(*final(store), e@)
        },
        *old(slot) is None ==> exists|v: T, mid: EntityStore<T, C>| {
            &&& init.ensures((), v)
            &&& #[trigger] old(store).created(mid, e@, v)
            &&& mid.ref_added(*final(store), e@)
        },
{
    match slot {
        Some(h) => {
            let id = h.id();
            store.increment_ref(id);
            Entity::new(id)
        },
        None => {
            let value = init();
            let created = store.create(value);
            let ghost mid = *store;
            let id = created.id();
            *slot = Some(created);
            store.increment_ref(id);
            proof {
                assert(old(store).created(mid, id, value));
            }
            Entity::new(id)
        },
    }
}

/// A cell for entity state created on first use.
pub struct StateCell<T> {
    inner: Option<Entity<T>>,
}

impl<T> StateCell<T> {
    /// The entity held, if it was created.
    pub closed spec fn entity(&self) -> Option<crate::entity::EntityId> {
        match self.inner {
            Some(h) => Some(h@),
            None => None,
        }
    }

    /// An empty cell.
    pub fn new() -> (c: Self)
        ensures
            c.entity() is None,
    {
        StateCell { inner: None }
    }

    /// The entity, created from `init()` on the first call; later calls
    /// return the same entity and do not run `init`.  Each handle given out
    /// holds a reference.
    pub fn get_or_init<C: FnMut()>(&mut self, store: &mut EntityStore<T, C>, init: impl FnOnce() -> T) -> (e: Entity<T>)
        requires
            old(store).wf(),
            old(self).entity() is None ==> old(store).can_allocate() && init.requires(()),
        ensures
            final(store).wf(),
            final(self).entity() == Some(e@),
            old(self).entity() matches Some(id) ==> {
                &&& e@ == id
                &&& old(store).ref_added(*final(store), e@)
            },
            old(self).entity() is None ==> exists|v: T, mid: EntityStore<T, C>| {
                &&& init.ensures((), v)
                &&& #[trigger] old(store).created(mid, e@, v)
                &&& mid.ref_added(*final(store), e@)
            },
    {
        init_or_reuse(&mut self.inner, store, init)
    }

    /// Whether the entity was created.
    pub fn is_init(&self) -> (r: bool)
        ensures
            r == self.entity() is Some,
    {
        self.inner.is_some()
    }

    /// A handle to the entity if it was created; the handle holds a reference.
    pub fn get<C: FnMut()>(&self, store: &mut EntityStore<T, C>) -> (r: Option<Entity<T>>)
        requires
            old(store).wf(),
        ensures
            final(store).wf(),
            self.entity() is None ==> r is None && *final(store) == *old(store),
            self.entity() matches Some(id) ==> {
                &&& r is Some
                &&& r->0@ == id
                &&& old(store).ref_added(*final(store), id)
            },
    {
        match &self.inner {
            Some(h) => {
                let id = h.id();
                store.increment_ref(id);
                Some(Entity::new(id))
            },
            None => None,
        }
    }
}

impl<T> Default for StateCell<T> {
    fn default() -> (c: Self)
        ensures
            c.entity() is None,
    {
        Self::new()
    }
}

} // verus!
