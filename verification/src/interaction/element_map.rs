//! A map keyed by element id, kept in a hash map keyed by the id's number.

use vstd::prelude::*;
use std::collections::HashMap;
use crate::interaction::ElementId;

verus! {

broadcast use vstd::std_specs::hash::group_hash_axioms;

/// A map from element ids to values.
pub struct ElementMap<V> {
    entries: HashMap<u64, V>,
}

/// The element id with number `n`.
pub open spec fn element_of(n: u64) -> ElementId {
    ElementId(n)
}

impl<V> ElementMap<V> {
    /// Invariant: finitely many keys.
    pub closed spec fn wf(&self) -> bool {
        self.entries@.dom().finite()
    }

    /// An empty map.
    pub fn new() -> (m: Self)
        ensures
            m.wf(),
            m@ == Map::<ElementId, V>::empty(),
    {
        let m = ElementMap { entries: HashMap::new() };
        assert(m@ =~= Map::<ElementId, V>::empty());
        m
    }

    /// The value stored for `k`.
    pub fn get(&self, k: ElementId) -> (r: Option<&V>)
        requires
            self.wf(),
        ensures
            r is Some <==> self@.contains_key(k),
            r is Some ==> *(r->0) == self@[k],
    {
        self.entries.get(&k.0)
    }

    /// Whether `k` is a key.
    pub fn contains_key(&self, k: ElementId) -> (r: bool)
        requires
            self.wf(),
        ensures
            r == self@.contains_key(k),
    {
        self.entries.contains_key(&k.0)
    }

    /// Store `v` for `k`, replacing any previous value.
    pub fn insert(&mut self, k: ElementId, v: V)
        requires
            old(self).wf(),
        ensures
            final(self).wf(),
            final(self)@ == old(self)@.insert(k, v),
    {
        let _ = self.entries.insert(k.0, v);
        assert(self@ =~= old(self)@.insert(k, v));
    }

    /// Remove `k` and its value.
    pub fn remove(&mut self, k: ElementId)
        requires
            old(self).wf(),
        ensures
            final(self).wf(),
            final(self)@ == old(self)@.remove(k),
    {
        let _ = self.entries.remove(&k.0);
        assert(self@ =~= old(self)@.remove(k));
    }

    /// Number of keys.
    pub fn len(&self) -> (n: usize)
        requires
            self.wf(),
        ensures
            n == self@.len(),
    {
        proof {
            let f = |u: u64| element_of(u);
            assert(self.entries@.dom().map(f) =~= self@.dom()) by {
                assert forall|k: ElementId| #[trigger] self@.dom().contains(k) implies self.entries@.dom().map(f).contains(k) by {
                    assert(f(k.0) == k);
                }
            }
            vstd::set_lib::lemma_map_size(self.entries@.dom(), self@.dom(), f);
        }
        self.entries.len()
    }

    /// Remove every key.
    pub fn clear(&mut self)
        ensures
            final(self).wf(),
            final(self)@ == Map::<ElementId, V>::empty(),
    {
        self.entries.clear();
        assert(self@ =~= Map::<ElementId, V>::empty());
    }
}

impl<V> View for ElementMap<V> {
    type V = Map<ElementId, V>;

    closed spec fn view(&self) -> Map<ElementId, V> {
        Map::new(|k: ElementId| self.entries@.contains_key(k.0), |k: ElementId| self.entries@[k.0])
    }
}

} // verus!
