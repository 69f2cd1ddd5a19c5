use std::cell::Cell;
use std::rc::Rc;

use sol_ui::entity::computed::{computed, Computed};
use sol_ui::entity::derived::Memo;
use sol_ui::entity::state_cell::StateCell;
use sol_ui::entity::observe::{ObserverRegistry, SubscriptionId};
use sol_ui::entity::store::EntityStore;
use sol_ui::entity::subscription::SubscriptionManager;
use sol_ui::entity::{Entity, EntityId, LazyEntity};

type Callback = Box<dyn FnMut()>;

#[derive(Debug, PartialEq)]
struct TestState {
    value: i32,
}

// ---- ids ----

#[test]
fn test_entity_id_equality() {
    let id1 = EntityId::new(0, 1);
    let id2 = EntityId::new(0, 1);
    let id3 = EntityId::new(0, 2);
    let id4 = EntityId::new(1, 1);

    assert_eq!(id1, id2);
    assert_ne!(id1, id3);
    assert_ne!(id1, id4);
}

// ---- observer registry ----

#[test]
fn test_subscribe_and_notify() {
    let mut registry: ObserverRegistry<Callback> = ObserverRegistry::new();
    let entity_id = EntityId::new(0, 1);

    let notified = Rc::new(Cell::new(false));
    let notified_clone = notified.clone();

    let _sub_id = registry.subscribe(entity_id, Box::new(move || {
        notified_clone.set(true);
    }), SubscriptionId::new(1));

    registry.mark_changed(entity_id);
    assert!(!notified.get());
    assert!(registry.has_pending_changes());

    registry.flush();
    assert!(notified.get());
    assert!(!registry.has_pending_changes());
}

#[test]
fn test_unsubscribe() {
    let mut registry: ObserverRegistry<Callback> = ObserverRegistry::new();
    let entity_id = EntityId::new(0, 1);

    let notified = Rc::new(Cell::new(false));
    let notified_clone = notified.clone();

    let sub_id = registry.subscribe(entity_id, Box::new(move || {
        notified_clone.set(true);
    }), SubscriptionId::new(1));

    registry.unsubscribe(sub_id);

    registry.mark_changed(entity_id);
    assert!(!registry.has_pending_changes());

    registry.flush();
    assert!(!notified.get());
}

#[test]
fn test_batched_changes() {
    let mut registry: ObserverRegistry<Callback> = ObserverRegistry::new();
    let entity_id = EntityId::new(0, 1);

    let count = Rc::new(Cell::new(0));
    let count_clone = count.clone();

    let _sub_id = registry.subscribe(entity_id, Box::new(move || {
        count_clone.set(count_clone.get() + 1);
    }), SubscriptionId::new(1));

    registry.mark_changed(entity_id);
    registry.mark_changed(entity_id);
    registry.mark_changed(entity_id);

    registry.flush();
    assert_eq!(count.get(), 1);
}

#[test]
fn test_multiple_observers() {
    let mut registry: ObserverRegistry<Callback> = ObserverRegistry::new();
    let entity_id = EntityId::new(0, 1);

    let count1 = Rc::new(Cell::new(0));
    let count2 = Rc::new(Cell::new(0));
    let count1_clone = count1.clone();
    let count2_clone = count2.clone();

    registry.subscribe(entity_id, Box::new(move || {
        count1_clone.set(count1_clone.get() + 1);
    }), SubscriptionId::new(1));
    registry.subscribe(entity_id, Box::new(move || {
        count2_clone.set(count2_clone.get() + 1);
    }), SubscriptionId::new(2));

    registry.mark_changed(entity_id);
    registry.flush();

    assert_eq!(count1.get(), 1);
    assert_eq!(count2.get(), 1);
}

#[test]
fn test_invalidation_requested() {
    let mut registry: ObserverRegistry<Callback> = ObserverRegistry::new();
    let entity_id = EntityId::new(0, 1);

    registry.subscribe(entity_id, Box::new(|| {}), SubscriptionId::new(1));

    assert!(!registry.invalidation_requested());

    registry.mark_changed(entity_id);
    assert!(registry.invalidation_requested());

    registry.flush();
    assert!(!registry.invalidation_requested());
}

// ---- store ----

#[test]
fn test_create_and_read() {
    let mut store: EntityStore<TestState, Callback> = EntityStore::new();
    let entity = store.create(TestState { value: 42 });

    let result = store.read(&entity, |s| s.value);
    assert_eq!(result, Some(42));
}

#[test]
fn test_update() {
    let mut store: EntityStore<TestState, Callback> = EntityStore::new();
    let entity = store.create(TestState { value: 0 });

    store.update(&entity, |s| s.value = 100);

    let result = store.read(&entity, |s| s.value);
    assert_eq!(result, Some(100));
}

#[test]
fn test_ref_counting() {
    let mut store: EntityStore<TestState, Callback> = EntityStore::new();
    let entity = store.create(TestState { value: 1 });

    assert_eq!(store.len(), 1);

    store.increment_ref(entity.id());

    store.decrement_ref(entity.id());
    store.cleanup();
    assert_eq!(store.len(), 1);

    store.decrement_ref(entity.id());
    store.cleanup();
    assert_eq!(store.len(), 0);
}

#[test]
fn test_slot_reuse() {
    let mut store: EntityStore<TestState, Callback> = EntityStore::new();

    let entity1 = store.create(TestState { value: 1 });
    let id1 = entity1.id();
    store.decrement_ref(id1);
    store.cleanup();

    let entity2 = store.create(TestState { value: 2 });
    let id2 = entity2.id();

    assert_eq!(id1.index(), id2.index());
    assert_ne!(id1.generation(), id2.generation());
}

#[test]
fn test_stale_access() {
    let mut store: EntityStore<TestState, Callback> = EntityStore::new();

    let entity = store.create(TestState { value: 1 });
    let stale_id = entity.id();

    store.decrement_ref(stale_id);
    store.cleanup();

    let _entity2 = store.create(TestState { value: 2 });

    let stale_entity: Entity<TestState> = Entity::new(stale_id);

    let result = store.read(&stale_entity, |s| s.value);
    assert_eq!(result, None);
}

// ---- subscription manager ----

#[test]
fn test_observe_then_dirty() {
    let mut mgr = SubscriptionManager::new();
    let id = EntityId::new(0, 0);

    mgr.observe(id);
    assert!(!mgr.needs_render());

    mgr.mark_dirty(id);
    assert!(mgr.needs_render());
}

#[test]
fn test_dirty_then_observe() {
    let mut mgr = SubscriptionManager::new();
    let id = EntityId::new(0, 0);

    mgr.mark_dirty(id);
    assert!(!mgr.needs_render());

    mgr.observe(id);
    assert!(mgr.needs_render());
}

#[test]
fn test_different_entities() {
    let mut mgr = SubscriptionManager::new();
    let id1 = EntityId::new(0, 0);
    let id2 = EntityId::new(1, 0);

    mgr.observe(id1);
    mgr.mark_dirty(id2);

    assert!(!mgr.needs_render());
}

#[test]
fn test_end_frame_clears() {
    let mut mgr = SubscriptionManager::new();
    let id = EntityId::new(0, 0);

    mgr.observe(id);
    mgr.mark_dirty(id);
    assert!(mgr.needs_render());

    assert!(mgr.end_frame());
    assert!(!mgr.needs_render());
    assert_eq!(mgr.observed_count(), 0);
    assert_eq!(mgr.dirty_count(), 0);
}

// ---- memo ----

#[test]
fn test_memo_basic() {
    let mut memo = Memo::new();
    let mut compute_count = 0;

    let value = memo.get_or_compute(1, || {
        compute_count += 1;
        42
    });
    assert_eq!(*value, 42);
    assert_eq!(compute_count, 1);

    let value = memo.get_or_compute(1, || {
        compute_count += 1;
        99
    });
    assert_eq!(*value, 42);
    assert_eq!(compute_count, 1);

    let value = memo.get_or_compute(2, || {
        compute_count += 1;
        100
    });
    assert_eq!(*value, 100);
    assert_eq!(compute_count, 2);
}

#[test]
fn test_memo_invalidate() {
    let mut memo = Memo::new();

    let _ = memo.get_or_compute(1, || 42);
    assert!(memo.is_cached());

    memo.invalidate();
    assert!(!memo.is_cached());
}

// ---- computed values ----

#[test]
fn test_computed_basic() {
    let mut store: EntityStore<TestState, Callback> = EntityStore::new();

    let entity = store.create(TestState { value: 5 });
    let mut doubled = Computed::new(&mut store, &entity, |s: &TestState| s.value * 2, Box::new(|| {}), SubscriptionId::new(1));

    // Initial value
    assert_eq!(doubled.get(&store), Some(10));
    assert!(doubled.is_valid(&store));

    // Update source
    store.update(&entity, |s| s.value = 10);

    // Cache should be invalidated (but notification happens on flush)
    store.flush_notifications();
    assert!(!doubled.is_valid(&store));

    // Get should recompute
    assert_eq!(doubled.get(&store), Some(20));
    assert!(doubled.is_valid(&store));
}

#[test]
fn test_computed_invalidate() {
    let mut store: EntityStore<TestState, Callback> = EntityStore::new();

    let entity = store.create(TestState { value: 5 });
    let mut doubled = Computed::new(&mut store, &entity, |s: &TestState| s.value * 2, Box::new(|| {}), SubscriptionId::new(1));

    assert_eq!(doubled.get(&store), Some(10));
    assert!(doubled.is_valid(&store));

    doubled.invalidate();
    assert!(!doubled.is_valid(&store));

    assert_eq!(doubled.get(&store), Some(10));
}

#[test]
fn computed_of_freed_entity_is_none() {
    let mut store: EntityStore<TestState, Callback> = EntityStore::new();
    let entity = store.create(TestState { value: 3 });
    let mut tripled = computed(&mut store, &entity, |s: &TestState| s.value * 3, Box::new(|| {}), SubscriptionId::new(1));
    assert_eq!(tripled.source_id(), entity.id());
    store.decrement_ref(entity.id());
    store.cleanup();
    assert_eq!(tripled.get(&store), None);
    assert!(!tripled.is_valid(&store));
}

#[test]
fn computed_ignores_unrelated_notifications() {
    let mut store: EntityStore<TestState, Callback> = EntityStore::new();
    let a = store.create(TestState { value: 1 });
    let b = store.create(TestState { value: 2 });
    let mut from_a = Computed::new(&mut store, &a, |s: &TestState| s.value + 100, Box::new(|| {}), SubscriptionId::new(1));
    let _from_b = Computed::new(&mut store, &b, |s: &TestState| s.value, Box::new(|| {}), SubscriptionId::new(2));
    assert_eq!(from_a.get(&store), Some(101));
    store.update(&b, |s| s.value = 7);
    let notified = store.flush_notifications();
    assert_eq!(notified.len(), 1);
    assert!(from_a.is_valid(&store));
}

#[test]
fn computed_release_unsubscribes() {
    let mut store: EntityStore<TestState, Callback> = EntityStore::new();
    let entity = store.create(TestState { value: 1 });
    let doubled = Computed::new(&mut store, &entity, |s: &TestState| s.value * 2, Box::new(|| {}), SubscriptionId::new(1));
    doubled.release(&mut store);
    store.update(&entity, |s| s.value = 2);
    assert!(!store.has_pending_notifications());
    assert!(store.flush_notifications().is_empty());
}

// ---- state cells ----

#[test]
fn test_state_cell_initialization() {
    let mut store: EntityStore<TestState, Callback> = EntityStore::new();

    let mut cell: StateCell<TestState> = StateCell::new();

    assert!(!cell.is_init());
    assert!(cell.get(&mut store).is_none());

    let entity = cell.get_or_init(&mut store, || TestState { value: 42 });
    assert!(cell.is_init());
    assert!(cell.get(&mut store).is_some());

    // Second call returns same entity
    let entity2 = cell.get_or_init(&mut store, || TestState { value: 99 });
    assert_eq!(entity.id(), entity2.id());
}

#[test]
fn test_state_cell_init_only_once() {
    let mut store: EntityStore<TestState, Callback> = EntityStore::new();

    let mut cell: StateCell<TestState> = StateCell::new();
    let init_count = Cell::new(0);

    let _ = cell.get_or_init(&mut store, || {
        init_count.set(init_count.get() + 1);
        TestState { value: 1 }
    });
    assert_eq!(init_count.get(), 1);

    let _ = cell.get_or_init(&mut store, || {
        init_count.set(init_count.get() + 1);
        TestState { value: 2 }
    });
    assert_eq!(init_count.get(), 1);
}

#[test]
fn state_cell_handles_keep_the_entity_alive() {
    let mut store: EntityStore<TestState, Callback> = EntityStore::new();
    let mut cell: StateCell<TestState> = StateCell::new();
    let handle = cell.get_or_init(&mut store, || TestState { value: 8 });
    // the cell's own reference and the handle's
    store.decrement_ref(handle.id());
    store.cleanup();
    assert_eq!(store.len(), 1);
    assert_eq!(store.read(&handle, |s| s.value), Some(8));
}

#[test]
fn lazy_entity_creates_once() {
    let mut store: EntityStore<TestState, Callback> = EntityStore::new();
    let mut lazy: LazyEntity<TestState> = LazyEntity::new();
    assert!(!lazy.is_initialized());
    let first = lazy.get_or_init(&mut store, || TestState { value: 5 });
    let second = lazy.get_or_init(&mut store, || TestState { value: 6 });
    assert!(lazy.is_initialized());
    assert_eq!(first.id(), second.id());
    assert_eq!(store.read(&second, |s| s.value), Some(5));
    assert_eq!(store.len(), 1);
}

// ---- derive ----

#[test]
fn derive_runs_the_computation_once() {
    let mut runs = 0;
    let v = sol_ui::entity::derived::derive(|| {
        runs += 1;
        6 * 7
    });
    assert_eq!(v, 42);
    assert_eq!(runs, 1);
}

#[test]
fn derive_from_records_observation() {
    let mut store: EntityStore<TestState, Callback> = EntityStore::new();
    let mut subs = SubscriptionManager::new();
    let entity = store.create(TestState { value: 4 });
    let v = sol_ui::entity::derived::derive_from(&store, &mut subs, &entity, |s| s.value + 1);
    assert_eq!(v, Some(5));
    assert_eq!(subs.observed_count(), 1);
    subs.mark_dirty(entity.id());
    assert!(subs.needs_render());
    let stale: Entity<TestState> = Entity::new(EntityId::new(9, 0));
    assert_eq!(sol_ui::entity::derived::derive_from(&store, &mut subs, &stale, |s| s.value), None);
    assert_eq!(subs.observed_count(), 1);
}

// ---- laws on concrete values ----

#[test]
fn create_counts_and_reuses_only_when_a_slot_is_free() {
    let mut store: EntityStore<TestState, Callback> = EntityStore::new();
    let a = store.create(TestState { value: 1 });
    let _b = store.create(TestState { value: 2 });
    assert_eq!((store.len(), store.capacity()), (2, 2));
    store.decrement_ref(a.id());
    store.cleanup();
    assert_eq!((store.len(), store.capacity()), (1, 2));
    let c = store.create(TestState { value: 3 });
    assert_eq!(c.id().index(), a.id().index());
    assert_eq!((store.len(), store.capacity()), (2, 2));
    let _d = store.create(TestState { value: 4 });
    assert_eq!((store.len(), store.capacity()), (3, 3));
}

#[test]
fn cleanup_frees_every_unreferenced_entity() {
    let mut store: EntityStore<TestState, Callback> = EntityStore::new();
    let a = store.create(TestState { value: 1 });
    let b = store.create(TestState { value: 2 });
    let c = store.create(TestState { value: 3 });
    store.decrement_ref(a.id());
    store.decrement_ref(c.id());
    store.cleanup();
    assert_eq!(store.read(&a, |s| s.value), None);
    assert_eq!(store.read(&b, |s| s.value), Some(2));
    assert_eq!(store.read(&c, |s| s.value), None);
    assert_eq!(store.len(), 1);
    assert_eq!(store.capacity(), 3);
}

#[test]
fn subscription_lifecycle() {
    let mut store: EntityStore<TestState, Callback> = EntityStore::new();
    let e = store.create(TestState { value: 1 });
    let count = Rc::new(Cell::new(0));
    let count_clone = count.clone();
    let s = store.subscribe(&e, Box::new(move || count_clone.set(count_clone.get() + 1)), SubscriptionId::new(7));
    assert_eq!(s, SubscriptionId::new(7));
    assert_eq!(count.get(), 0);
    store.update(&e, |st| st.value = 2);
    store.update(&e, |st| st.value = 3);
    assert!(store.has_pending_notifications());
    assert!(store.invalidation_requested());
    assert_eq!(store.flush_notifications(), vec![s]);
    assert_eq!(count.get(), 1);
    store.unsubscribe(s);
    store.update(&e, |st| st.value = 4);
    assert!(store.flush_notifications().is_empty());
    assert_eq!(count.get(), 1);
}

#[test]
fn computed_stays_current_until_the_flush() {
    let mut store: EntityStore<TestState, Callback> = EntityStore::new();
    let entity = store.create(TestState { value: 2 });
    let mut tripled = Computed::new(&mut store, &entity, |s: &TestState| s.value * 3, Box::new(|| {}), SubscriptionId::new(4));
    assert_eq!(tripled.get(&store), Some(6));
    store.update(&entity, |s| s.value = 3);
    assert!(tripled.is_valid(&store));
    assert_eq!(tripled.get(&store), Some(6));
    store.cleanup();
    assert!(!tripled.is_valid(&store));
    assert_eq!(tripled.get(&store), Some(9));
    assert!(tripled.is_valid(&store));
}

#[test]
fn cleanup_runs_the_callbacks_of_changed_entities() {
    let mut store: EntityStore<TestState, Callback> = EntityStore::new();
    let e = store.create(TestState { value: 1 });
    let other = store.create(TestState { value: 2 });
    let hits = Rc::new(Cell::new(0));
    let hits_e = hits.clone();
    let hits_other = hits.clone();
    store.subscribe(&e, Box::new(move || hits_e.set(hits_e.get() + 1)), SubscriptionId::new(1));
    store.subscribe(&other, Box::new(move || hits_other.set(hits_other.get() + 10)), SubscriptionId::new(2));
    store.update(&e, |s| s.value = 5);
    assert_eq!(store.change_count(e.id()), 0);
    assert_eq!(store.cleanup(), vec![SubscriptionId::new(1)]);
    assert_eq!(hits.get(), 1);
    assert_eq!(store.change_count(e.id()), 1);
    assert_eq!(store.change_count(other.id()), 0);
}
