//! Per-frame tracking of observed and mutated entities.
//!
//! An entity read with observation during a frame and mutated during the
//! same frame, in either order, requests a re-render.

use vstd::prelude::*;
use std::collections::HashSet;
use crate::entity::EntityId;

verus! {

broadcast use vstd::std_specs::hash::group_hash_axioms;

/// The number a hash set keeps for entity `id`: its index in the high 32
/// bits and its generation in the low 32.
pub open spec fn entity_key(id: EntityId) -> u64 {
    ((id.index as u64) << 32u64) | (id.generation as u64)
}

/// The entity whose number is `k`.
pub open spec fn entity_of_key(k: u64) -> EntityId {
    EntityId { index: (k >> 32u64) as u32, generation: (k & 0xffff_ffffu64) as u32 }
}

/// The entities whose numbers `keys` holds.
pub open spec fn entities_of(keys: Set<u64>) -> Set<EntityId> {
    keys.map(|k: u64| entity_of_key(k))
}

/// Numbering entities and reading them back are inverse.
proof fn lemma_key_round_trips(id: EntityId, k: u64)
    ensures
        entity_of_key(entity_key(id)) == id,
        entity_key(entity_of_key(k)) == k,
{
    let i = id.index;
    let g = id.generation;
    assert(((((i as u64) << 32u64) | (g as u64)) >> 32u64) as u32 == i) by (bit_vector);
    assert(((((i as u64) << 32u64) | (g as u64)) & 0xffff_ffffu64) as u32 == g) by (bit_vector);
    assert(((((k >> 32u64) as u32) as u64) << 32u64) | (((k & 0xffff_ffffu64) as u32) as u64) == k) by (bit_vector);
}

/// Distinct entities have distinct numbers.
pub proof fn lemma_entity_key_injective(a: EntityId, b: EntityId)
    ensures
        entity_key(a) == entity_key(b) ==> a == b,
{
    lemma_key_round_trips(a, 0);
    lemma_key_round_trips(b, 0);
}

/// An entity is among those of `keys` exactly when its number is in `keys`.
proof fn lemma_entities_of_contains(keys: Set<u64>, id: EntityId)
    ensures
        entities_of(keys).contains(id) <==> keys.contains(entity_key(id)),
{
    lemma_key_round_trips(id, 0);
    if entities_of(keys).contains(id) {
        let k = choose|k: u64| keys.contains(k) && entity_of_key(k) == id;
        lemma_key_round_trips(id, k);
    }
    if keys.contains(entity_key(id)) {
        assert(entities_of(keys).contains(entity_of_key(entity_key(id))));
    }
}

/// Adding a number adds its entity.
proof fn lemma_entities_of_insert(keys: Set<u64>, id: EntityId)
    ensures
        entities_of(keys.insert(entity_key(id))) == entities_of(keys).insert(id),
{
    assert forall|e: EntityId| #[trigger] entities_of(keys.insert(entity_key(id))).contains(e)
        <==> entities_of(keys).insert(id).contains(e) by {
        lemma_entities_of_contains(keys.insert(entity_key(id)), e);
        lemma_entities_of_contains(keys, e);
        lemma_key_round_trips(e, 0);
        lemma_key_round_trips(id, 0);
    }
    assert(entities_of(keys.insert(entity_key(id))) =~= entities_of(keys).insert(id));
}

/// A finite set of numbers names as many entities as it holds numbers.
proof fn lemma_entities_of_len(keys: Set<u64>)
    requires
        keys.finite(),
    ensures
        entities_of(keys).finite(),
        entities_of(keys).len() == keys.len(),
{
    let f = |k: u64| entity_of_key(k);
    assert forall|a: u64, b: u64| keys.contains(a) && keys.contains(b) && #[trigger] f(a) == #[trigger] f(b) implies a == b by {
        lemma_key_round_trips(f(a), a);
        lemma_key_round_trips(f(b), b);
    }
    vstd::set_lib::lemma_map_size(keys, entities_of(keys), f);
}

/// The number of entity `id`.
pub(crate) fn key_of(id: EntityId) -> (k: u64)
    ensures
        k == entity_key(id),
{
    ((id.index as u64) << 32u64) | (id.generation as u64)
}

/// Tracks which entities were observed and which were mutated this frame.
pub struct SubscriptionManager {
    observed: HashSet<u64>,
    dirty: HashSet<u64>,
    needs_render: bool,
}

impl SubscriptionManager {
    /// Entities observed this frame.
    pub closed spec fn observed(&self) -> Set<EntityId> {
        entities_of(self.observed@)
    }

    /// Entities mutated this frame.
    pub closed spec fn dirty(&self) -> Set<EntityId> {
        entities_of(self.dirty@)
    }

    /// Whether some entity was both observed and mutated this frame.
    pub open spec fn render_needed(&self) -> bool {
        exists|e: EntityId| self.observed().contains(e) && self.dirty().contains(e)
    }

    /// Invariant: finitely many entities are recorded, and the cached
    /// re-render flag agrees with the two sets.
    pub closed spec fn wf(&self) -> bool {
        &&& self.observed@.finite()
        &&& self.dirty@.finite()
        &&& self.needs_render == self.render_needed()
    }

    /// Create a manager with nothing observed or mutated.
    pub fn new() -> (m: Self)
        ensures
            m.wf(),
            m.observed() == Set::<EntityId>::empty(),
            m.dirty() == Set::<EntityId>::empty(),
    {
        let m = SubscriptionManager { observed: HashSet::new(), dirty: HashSet::new(), needs_render: false };
        assert(m.observed() =~= Set::<EntityId>::empty());
        assert(m.dirty() =~= Set::<EntityId>::empty());
        m
    }

    /// Record that `id` was observed this frame.
    pub fn observe(&mut self, id: EntityId)
        requires
            old(self).wf(),
        ensures
            final(self).wf(),
            final(self).observed() == old(self).observed().insert(id),
            final(self).dirty() == old(self).dirty(),
    {
        let k = key_of(id);
        let _ = self.observed.insert(k);
        proof {
            lemma_entities_of_insert(old(self).observed@, id);
            lemma_entities_of_contains(self.dirty@, id);
        }
        if self.dirty.contains(&k) {
            self.needs_render = true;
            assert(self.observed().contains(id) && self.dirty().contains(id));
        } else {
            proof {
                if self.render_needed() {
                    let e = choose|e: EntityId| self.observed().contains(e) && self.dirty().contains(e);
                    assert(e != id);
                    assert(old(self).observed().contains(e) && old(self).dirty().contains(e));
                }
                if old(self).render_needed() {
                    let e = choose|e: EntityId| old(self).observed().contains(e) && old(self).dirty().contains(e);
                    assert(self.observed().contains(e) && self.dirty().contains(e));
                }
            }
        }
    }

    /// Record that `id` was mutated this frame.
    pub fn mark_dirty(&mut self, id: EntityId)
        requires
            old(self).wf(),
        ensures
            final(self).wf(),
            final(self).dirty() == old(self).dirty().insert(id),
            final(self).observed() == old(self).observed(),
    {
        let k = key_of(id);
        let _ = self.dirty.insert(k);
        proof {
            lemma_entities_of_insert(old(self).dirty@, id);
            lemma_entities_of_contains(self.observed@, id);
        }
        if self.observed.contains(&k) {
            self.needs_render = true;
            assert(self.observed().contains(id) && self.dirty().contains(id));
        } else {
            proof {
                if self.render_needed() {
                    let e = choose|e: EntityId| self.observed().contains(e) && self.dirty().contains(e);
                    assert(e != id);
                    assert(old(self).observed().contains(e) && old(self).dirty().contains(e));
                }
                if old(self).render_needed() {
                    let e = choose|e: EntityId| old(self).observed().contains(e) && old(self).dirty().contains(e);
                    assert(self.observed().contains(e) && self.dirty().contains(e));
                }
            }
        }
    }

    /// Whether some entity was both observed and mutated this frame.
    pub fn needs_render(&self) -> (r: bool)
        requires
            self.wf(),
        ensures
            r == self.render_needed(),
    {
        self.needs_render
    }

    /// Start a new frame; returns whether the ending frame needed a re-render.
    pub fn end_frame(&mut self) -> (r: bool)
        requires
            old(self).wf(),
        ensures
            final(self).wf(),
            r == old(self).render_needed(),
            final(self).observed() == Set::<EntityId>::empty(),
            final(self).dirty() == Set::<EntityId>::empty(),
    {
        let result = self.needs_render;
        self.observed.clear();
        self.dirty.clear();
        self.needs_render = false;
        assert(self.observed() =~= Set::<EntityId>::empty());
        assert(self.dirty() =~= Set::<EntityId>::empty());
        result
    }

    /// Number of entities observed this frame.
    pub fn observed_count(&self) -> (n: usize)
        requires
            self.wf(),
        ensures
            n == self.observed().len(),
    {
        proof {
            lemma_entities_of_len(self.observed@);
        }
        self.observed.len()
    }

    /// Number of entities mutated this frame.
    pub fn dirty_count(&self) -> (n: usize)
        requires
            self.wf(),
        ensures
            n == self.dirty().len(),
    {
        proof {
            lemma_entities_of_len(self.dirty@);
        }
        self.dirty.len()
    }
}

impl Default for SubscriptionManager {
    fn default() -> (m: Self)
        ensures
            m.wf(),
            m.observed() == Set::<EntityId>::empty(),
            m.dirty() == Set::<EntityId>::empty(),
    {
        Self::new()
    }
}

/// The entities observed by the calls `calls`: an entry `(true, id)` stands
/// for `observe(id)`, `(false, id)` for `mark_dirty(id)`.
pub open spec fn observed_by(calls: Seq<(bool, EntityId)>) -> Set<EntityId>
    decreases calls.len(),
{
    if calls.len() == 0 {
        Set::empty()
    } else if calls.last().0 {
        observed_by(calls.drop_last()).insert(calls.last().1)
    } else {
        observed_by(calls.drop_last())
    }
}

/// The entities marked dirty by the calls `calls` (see `observed_by`).
pub open spec fn dirtied_by(calls: Seq<(bool, EntityId)>) -> Set<EntityId>
    decreases calls.len(),
{
    if calls.len() == 0 {
        Set::empty()
    } else if !calls.last().0 {
        dirtied_by(calls.drop_last()).insert(calls.last().1)
    } else {
        dirtied_by(calls.drop_last())
    }
}

/// `after` is `before` after the call `call` (see `observed_by`), as the
/// contracts of `observe` and `mark_dirty` state.
pub open spec fn after_call(before: SubscriptionManager, call: (bool, EntityId), after: SubscriptionManager) -> bool {
    if call.0 {
        &&& after.observed() == before.observed().insert(call.1)
        &&& after.dirty() == before.dirty()
    } else {
        &&& after.dirty() == before.dirty().insert(call.1)
        &&& after.observed() == before.observed()
    }
}

/// Law: over a frame, that is any sequence of `observe` and `mark_dirty`
/// calls on a new manager or one just past `end_frame`, the manager has
/// observed exactly the entities passed to `observe` and marked dirty
/// exactly those passed to `mark_dirty`, and it needs a re-render exactly
/// when some entity was passed to both, in either order.
pub proof fn law_needs_render_over_frame(states: Seq<SubscriptionManager>, calls: Seq<(bool, EntityId)>)
    requires
        states.len() == calls.len() + 1,
        states[0].observed() == Set::<EntityId>::empty(),
        states[0].dirty() == Set::<EntityId>::empty(),
        forall|k: int| 0 <= k < calls.len() ==> after_call(#[trigger] states[k], calls[k], states[k + 1]),
    ensures
        states.last().observed() == observed_by(calls),
        states.last().dirty() == dirtied_by(calls),
        states.last().render_needed() == exists|e: EntityId| observed_by(calls).contains(e) && dirtied_by(calls).contains(e),
    decreases calls.len(),
{
    if calls.len() > 0 {
        let n = calls.len() - 1;
        let s2 = states.drop_last();
        let c2 = calls.drop_last();
        assert forall|k: int| 0 <= k < c2.len() implies after_call(#[trigger] s2[k], c2[k], s2[k + 1]) by {
            assert(s2[k] == states[k] && s2[k + 1] == states[k + 1] && c2[k] == calls[k]);
            assert(after_call(states[k], calls[k], states[k + 1]));
        }
        law_needs_render_over_frame(s2, c2);
        assert(s2.last() == states[n]);
        assert(after_call(states[n], calls[n], states[n + 1]));
    }
}

} // verus!
