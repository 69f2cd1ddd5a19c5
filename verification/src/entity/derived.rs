//! Derived values: computing from entity state, and memoising by version.

use vstd::prelude::*;
use crate::entity::Entity;
use crate::entity::store::EntityStore;
use crate::entity::subscription::SubscriptionManager;

verus! {

/// Compute a derived value: runs `f` once and returns its result.
pub fn derive<R>(f: impl FnOnce() -> R) -> (r: R)
    requires
        f.requires(()),
    ensures
        f.ensures((), r),
{
    f()
}

/// Compute a derived value from one entity: read its state through `f`,
/// recording the entity as observed this frame so that a change to it asks
/// for a new render; `None` (with nothing recorded) if the entity is stale.
pub fn derive_from<T, C: FnMut(), R>(
    store: &EntityStore<T, C>,
    subscriptions: &mut SubscriptionManager,
    entity: &Entity<T>,
    f: impl FnOnce(&T) -> R,
) -> (r: Option<R>)
    requires
        old(subscriptions).wf(),
        store.is_live(entity@) ==> f.requires((&store.value(entity@),)),
    ensures
        final(subscriptions).wf(),
        r is Some <==> store.is_live(entity@),
        r is Some ==> f.ensures((&store.value(entity@),), r->0),
        final(subscriptions).dirty() == old(subscriptions).dirty(),
        final(subscriptions).observed() == (if store.is_live(entity@) {
            old(subscriptions).observed().insert(entity@)
        } else {
            old(subscriptions).observed()
        }),
{
    let r = store.read(entity, f);
    if r.is_some() {
        subscriptions.observe(entity.id());
    }
    r
}

/// A value memoised under a caller-chosen version: it is recomputed when
/// nothing is cached or the requested version differs from the cached one.
pub struct Memo<T> {
    value: Option<T>,
    version: u64,
}

impl<T> Memo<T> {
    /// The cached value, if any.
    pub closed spec fn cached(&self) -> Option<T> {
        self.value
    }

    /// The version of the cached value.
    pub closed spec fn cached_version(&self) -> u64 {
        self.version
    }

    /// Whether a request for `version` recomputes.
    pub open spec fn must_compute(&self, version: u64) -> bool {
        self.cached() is None || self.cached_version() != version
    }

    /// An empty memo.
    pub fn new() -> (m: Self)
        ensures
            m.cached() is None,
            m.cached_version() == 0,
    {
        Memo { value: None, version: 0 }
    }

    /// The value for `version`: the cached one when it is present and of that
    /// version, else the result of `compute`, which is then cached.
    pub fn get_or_compute(&mut self, version: u64, compute: impl FnOnce() -> T) -> (r: &T)
        requires
            old(self).must_compute(version) ==> compute.requires(()),
        ensures
            final(self).cached_version() == version,
            final(self).cached() is Some,
            *r == final(self).cached()->0,
            old(self).must_compute(version) ==> compute.ensures((), final(self).cached()->0),
            !old(self).must_compute(version) ==> final(self).cached() == old(self).cached(),
    {
        if self.value.is_none() || self.version != version {
            self.value = Some(compute());
            self.version = version;
        }
        self.value.as_ref().unwrap()
    }

    /// Drop the cached value.
    pub fn invalidate(&mut self)
        ensures
            final(self).cached() is None,
            final(self).cached_version() == old(self).cached_version(),
    {
        self.value = None;
    }

    /// Whether a value is cached.
    pub fn is_cached(&self) -> (r: bool)
        ensures
            r == self.cached() is Some,
    {
        self.value.is_some()
    }
}

impl<T> Default for Memo<T> {
    fn default() -> (m: Self)
        ensures
            m.cached() is None,
            m.cached_version() == 0,
    {
        Self::new()
    }
}

} // verus!
