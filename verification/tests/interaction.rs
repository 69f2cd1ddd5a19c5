use sol_ui::interaction::drag_drop::DragData;
use sol_ui::interaction::element_map::ElementMap;
use sol_ui::interaction::registry::{ElementRegistry, EventKind};
use sol_ui::interaction::shortcuts::{
    key_display_string, Shortcut, ShortcutModifiers, ShortcutRegistry, ShortcutScope,
};
use sol_ui::interaction::standard::{register_standard_shortcuts, COPY, QUIT, STANDARD_COUNT, UNDO};
use sol_ui::interaction::tracker::{FocusCandidate, InteractionTracker};
use sol_ui::interaction::{contains_element, ElementId, InteractionState};
use sol_ui::layer::{Key, Modifiers, MouseButton};
use sol_ui::interaction::hit_test::{HitTestBuilder, HitTestEntry, HitTestable};
use sol_ui::interaction::drag_drop::{DropZone, DropZoneRegistry};

fn id(n: u64) -> ElementId {
    ElementId::new(n)
}

#[test]
fn focus_moves_with_events() {
    let mut t = InteractionTracker::new();
    let ev = t.set_focus(Some(id(1)));
    assert_eq!(ev, vec![EventKind::FocusIn(id(1))]);
    let ev = t.set_focus(Some(id(2)));
    assert_eq!(ev, vec![EventKind::FocusOut(id(1)), EventKind::FocusIn(id(2))]);
    assert_eq!(t.focused_element(), Some(id(2)));
    assert!(t.set_focus(Some(id(2))).is_empty());
    assert!(t.get_state(id(2)).unwrap().is_focused);
    assert!(!t.get_state(id(1)).unwrap().is_focused);
}

#[test]
fn tab_cycles_through_focusable_elements() {
    let mut t = InteractionTracker::new();
    t.register_focusable(id(1));
    t.register_focusable(id(2));
    t.register_focusable(id(3));
    t.register_focusable(id(2));
    t.focus_next();
    assert_eq!(t.focused_element(), Some(id(1)));
    t.focus_next();
    t.focus_next();
    assert_eq!(t.focused_element(), Some(id(3)));
    t.focus_next();
    assert_eq!(t.focused_element(), Some(id(1)));
    t.focus_previous();
    assert_eq!(t.focused_element(), Some(id(3)));
}

#[test]
fn focus_trap_confines_tab() {
    let mut t = InteractionTracker::new();
    for n in 1..=4 {
        t.register_focusable(id(n));
    }
    t.set_focus(Some(id(1)));
    t.push_focus_trap(vec![id(3), id(4), id(9)]);
    assert!(t.has_focus_trap());
    assert_eq!(t.focused_element(), Some(id(3)));
    t.focus_next();
    assert_eq!(t.focused_element(), Some(id(4)));
    t.focus_next();
    assert_eq!(t.focused_element(), Some(id(3)));
    t.pop_focus_trap();
    assert!(!t.has_focus_trap());
    t.focus_next();
    assert_eq!(t.focused_element(), Some(id(4)));
}

#[test]
fn trap_without_focusable_elements_is_ignored() {
    let mut t = InteractionTracker::new();
    t.register_focusable(id(1));
    assert!(t.push_focus_trap(vec![id(7)]).is_empty());
    assert!(!t.has_focus_trap());
}

#[test]
fn hover_press_release_click() {
    let mut t = InteractionTracker::new();
    t.register_focusable(id(5));
    let ev = t.pointer_moved(Some(id(5)));
    assert_eq!(ev, vec![EventKind::MouseEnter(id(5)), EventKind::MouseMove(id(5))]);
    let ev = t.press(Some(id(5)), MouseButton::Left);
    assert!(ev.contains(&EventKind::MouseDown(id(5))));
    assert_eq!(t.focused_element(), Some(id(5)));
    assert!(t.get_state(id(5)).unwrap().is_pressed);
    let ev = t.release(Some(id(5)), MouseButton::Left);
    assert_eq!(ev, vec![EventKind::MouseUp(id(5)), EventKind::Click(id(5))]);
    assert!(!t.get_state(id(5)).unwrap().is_pressed);
    let ev = t.leave_window();
    assert_eq!(ev, vec![EventKind::MouseLeave(id(5))]);
}

#[test]
fn release_elsewhere_is_not_a_click() {
    let mut t = InteractionTracker::new();
    t.press(Some(id(1)), MouseButton::Right);
    let ev = t.release(Some(id(2)), MouseButton::Right);
    assert_eq!(ev, vec![EventKind::MouseUp(id(1))]);
}

#[test]
fn keys_go_to_focus_and_tab_moves_it() {
    let mut t = InteractionTracker::new();
    t.register_focusable(id(1));
    t.register_focusable(id(2));
    t.set_focus(Some(id(1)));
    let ev = t.key_down(Key::A, Modifiers::default(), false);
    assert_eq!(ev, vec![EventKind::KeyDown(id(1))]);
    t.key_down(Key::Tab, Modifiers::default(), false);
    assert_eq!(t.focused_element(), Some(id(2)));
    let shift = Modifiers { shift: true, ..Default::default() };
    t.key_down(Key::Tab, shift, false);
    assert_eq!(t.focused_element(), Some(id(1)));
    let ev = t.key_up(Modifiers::default());
    assert_eq!(ev, vec![EventKind::KeyUp(id(1))]);
    t.modifiers_changed(shift);
    assert!(t.current_modifiers().shift);
    t.clear();
    assert_eq!(t.focused_element(), None);
}

#[test]
fn focus_order_follows_z_index() {
    let mut t = InteractionTracker::new();
    let cands = [
        FocusCandidate { element_id: id(1), z_index: 2, focusable: true },
        FocusCandidate { element_id: id(2), z_index: 1, focusable: true },
        FocusCandidate { element_id: id(3), z_index: 1, focusable: false },
        FocusCandidate { element_id: id(4), z_index: 1, focusable: true },
    ];
    t.update_focus_order(&cands);
    t.focus_next();
    assert_eq!(t.focused_element(), Some(id(2)));
    t.focus_next();
    assert_eq!(t.focused_element(), Some(id(4)));
    t.focus_next();
    assert_eq!(t.focused_element(), Some(id(1)));
    t.clear_focusable_elements();
}

#[test]
fn registry_routes_events() {
    let mut r: ElementRegistry<&'static str> = ElementRegistry::new();
    assert!(r.is_empty());
    r.register(id(1), "button");
    r.register_focusable(id(1));
    r.register_focusable(id(1));
    assert_eq!(r.focusable_elements(), &[id(1)]);
    assert!(r.is_registered(id(1)));
    assert_eq!(r.handler(id(1)), Some(&"button"));
    assert!(r.dispatch_event(&EventKind::MouseEnter(id(1))));
    assert!(r.get_state(id(1)).unwrap().is_hovered);
    assert!(r.dispatch_event(&EventKind::MouseDown(id(1))));
    assert!(r.get_state(id(1)).unwrap().is_pressed);
    assert!(!r.dispatch_event(&EventKind::MouseEnter(id(2))));
    assert!(r.dispatch_event(&EventKind::ShortcutTriggered));
    r.update_state(id(1), InteractionState::new());
    assert!(!r.get_state(id(1)).unwrap().is_hovered);
    assert_eq!(r.len(), 1);
    r.unregister(id(1));
    assert!(!r.is_registered(id(1)));
    r.clear();
    assert!(r.is_empty());
    assert_eq!(EventKind::Click(id(3)).target(), Some(id(3)));
    assert_eq!(EventKind::DragDrop.target(), None);
}

#[test]
fn element_map_basics() {
    let mut m: ElementMap<u32> = ElementMap::new();
    m.insert(id(1), 10);
    m.insert(id(2), 20);
    m.insert(id(1), 11);
    assert_eq!(m.len(), 2);
    assert_eq!(m.get(id(1)), Some(&11));
    assert!(m.contains_key(id(2)));
    m.remove(id(2));
    assert!(!m.contains_key(id(2)));
    assert_eq!(m.get(id(2)), None);
    m.clear();
    assert_eq!(m.len(), 0);
}

#[test]
fn drag_data_payloads() {
    let d = DragData::string("text", "hello");
    assert_eq!(d.as_string(), Some("hello"));
    assert_eq!(d.as_index(), None);
    let d = DragData::index("row", 4);
    assert_eq!(d.as_index(), Some(4));
    let d = DragData::indices("rows", vec![1, 2]);
    assert_eq!(d.as_indices(), Some(&[1usize, 2][..]));
    let d = DragData::json("obj", "{}");
    assert_eq!(d.as_json(), Some("{}"));
    assert_eq!(d.as_string(), None);
}

#[test]
fn shortcut_modifiers_and_labels() {
    assert!(ShortcutModifiers::cmd().matches(&Modifiers { cmd: true, ..Default::default() }));
    assert!(!ShortcutModifiers::new().matches(&Modifiers { shift: true, ..Default::default() }));
    assert_eq!(Shortcut::ctrl(Key::K).display_string(), "\u{2303}K");
    assert_eq!(Shortcut::alt(Key::Up).display_string(), "\u{2325}\u{2191}");
    assert_eq!(key_display_string(&Key::Return), "\u{21a9}");
}

#[test]
fn standard_shortcuts_registered() {
    let mut r = ShortcutRegistry::new();
    register_standard_shortcuts(&mut r);
    assert_eq!(r.all().len(), STANDARD_COUNT);
    let cmd = Modifiers { cmd: true, ..Default::default() };
    assert_eq!(r.find_match(Key::C, &cmd, None).unwrap().action_name, COPY);
    assert_eq!(r.find_match(Key::Z, &cmd, None).unwrap().action_name, UNDO);
    assert_eq!(r.find_match(Key::Q, &cmd, None).unwrap().action_name, QUIT);
    assert_eq!(r.get_shortcut_hint(COPY), Some("\u{2318}C".to_string()));
    assert!(r.detect_conflicts().is_empty());
}

#[test]
fn disabled_and_scoped_shortcuts() {
    let mut r = ShortcutRegistry::new();
    let a = r.register(Shortcut::cmd(Key::S), "save", ShortcutScope::Global);
    let cmd = Modifiers { cmd: true, ..Default::default() };
    r.set_enabled(a, false);
    assert!(r.find_match(Key::S, &cmd, None).is_none());
    r.set_enabled(a, true);
    assert!(r.rebind(a, Shortcut::cmd(Key::D)));
    assert!(r.find_match(Key::S, &cmd, None).is_none());
    assert!(r.find_match(Key::D, &cmd, None).is_some());
    r.unregister(a);
    assert!(r.get(a).is_none());
    let f = r.register(Shortcut::key(Key::Escape), "close", ShortcutScope::Focused(id(7)));
    assert!(r.find_match(Key::Escape, &Modifiers::default(), None).is_none());
    assert_eq!(r.find_match(Key::Escape, &Modifiers::default(), Some(id(7))).unwrap().id, f);
    r.clear();
    assert!(r.all().is_empty());
}

#[test]
fn contains_element_finds() {
    assert!(contains_element(&[id(1), id(2)], id(2)));
    assert!(!contains_element(&[], id(2)));
}


#[test]
fn hit_test_builder_sorts_topmost_first() {
    let mut b: HitTestBuilder<(u8, u8)> = HitTestBuilder::new(2, 10);
    b.add_entry(id(1), (0, 0), 0);
    b.push_z_context(5);
    b.add_focusable_entry(id(2), (1, 1), 1);
    b.add_entry(id(3), (2, 2), 1);
    b.pop_z_context(5);
    b.add_entry(id(4), (3, 3), -3);
    let built = b.build();
    let order: Vec<u64> = built.iter().map(|e| e.element_id.0).collect();
    assert_eq!(order, vec![2, 3, 1, 4]);
    assert_eq!(built[0].z_index, 16);
    assert!(built[0].focusable);
    assert_eq!(built[3].z_index, 7);
    assert_eq!(built[3].layer_index, 2);
    assert_eq!(b.entries().len(), 4);
    b.clear();
    assert!(b.entries().is_empty());
}

#[test]
fn hit_test_entries_of_higher_layers_come_first() {
    let a = HitTestEntry::new(id(1), (), 0, 0);
    let c = HitTestEntry::new(id(2), (), 0, 3).with_focusable(true);
    let mut b: HitTestBuilder<()> = HitTestBuilder::default_for_testing();
    b.add_entry(id(9), (), 0);
    let mut built = b.build();
    built.push(a);
    built.push(c);
    assert_eq!(built.len(), 3);
    assert!(c.focusable);
}

struct Widget(u64);

impl HitTestable for Widget {
    fn element_id(&self) -> ElementId {
        ElementId::new(self.0)
    }
}

#[test]
fn hit_testable_defaults() {
    let w = Widget(3);
    assert_eq!(w.element_id(), id(3));
    assert!(w.is_interactive());
    assert_eq!(w.z_index_offset(), 0);
}


#[test]
fn drop_zones_accept_and_find() {
    let any: DropZone<(i32, i32)> = DropZone::new(id(1), (0, 10));
    assert!(any.accepts("anything"));
    let rows = DropZone::new(id(2), (5, 15)).accept("row").accept("cell").insert_zone(3);
    assert!(rows.accepts("cell"));
    assert!(!rows.accepts("image"));
    assert!(rows.is_insert_zone);
    assert_eq!(rows.insert_index, Some(3));
    let mut reg = DropZoneRegistry::new();
    reg.register(any);
    reg.register(rows);
    let inside = |x: i32| move |b: &(i32, i32)| b.0 <= x && x <= b.1;
    assert_eq!(reg.find_at("row", inside(7)).unwrap().element_id, id(2));
    assert_eq!(reg.find_at("image", inside(7)).unwrap().element_id, id(1));
    assert_eq!(reg.find_at("row", inside(2)).unwrap().element_id, id(1));
    assert!(reg.find_at("row", inside(20)).is_none());
    assert_eq!(reg.zones().len(), 2);
    reg.clear();
    assert!(reg.zones().is_empty());
}

#[test]
fn registry_delivers_events_to_handlers() {
    let mut r: ElementRegistry<&'static str> = ElementRegistry::new();
    r.register(id(1), "button");
    let mut seen: Vec<(&'static str, EventKind)> = Vec::new();
    let mut deliver = |h: &&'static str, e: &EventKind| seen.push((*h, *e));
    assert!(r.dispatch_event_to(&EventKind::Click(id(1)), &mut deliver));
    assert!(!r.dispatch_event_to(&EventKind::Click(id(2)), &mut deliver));
    assert!(r.dispatch_event_to(&EventKind::ShortcutTriggered, &mut deliver));
    assert!(r.dispatch_event_to(&EventKind::MouseDown(id(1)), &mut deliver));
    assert_eq!(seen, vec![("button", EventKind::Click(id(1))), ("button", EventKind::MouseDown(id(1)))]);
}
