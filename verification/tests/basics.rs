use sol_ui::layer::{BlendMode, Key, Modifiers};
use sol_ui::layout_id::LayoutId;
use sol_ui::text::{contains_str, has_prefix, push_decimal, same_text};
use sol_ui::layout_cache::{CachedNode, LayoutCache};

#[test]
fn keycodes_map_to_keys() {
    assert_eq!(Key::from_keycode(0x00), Key::A);
    assert_eq!(Key::from_keycode(0x24), Key::Return);
    assert_eq!(Key::from_keycode(0x35), Key::Escape);
    assert_eq!(Key::from_keycode(0x7E), Key::Up);
    assert_eq!(Key::from_keycode(0xFFFF), Key::Unknown(0xFFFF));
}

#[test]
fn key_classes() {
    assert!(Key::A.is_printable());
    assert!(Key::Space.is_printable());
    assert!(!Key::F1.is_printable());
    assert!(Key::LeftShift.is_modifier());
    assert!(!Key::A.is_modifier());
}

#[test]
fn modifier_queries() {
    let none = Modifiers::new();
    assert!(none.is_empty());
    let caps = Modifiers { caps_lock: true, ..Default::default() };
    assert!(caps.is_empty());
    let shift = Modifiers { shift: true, ..Default::default() };
    assert!(shift.shift_only());
    assert!(!shift.command_or_ctrl());
    let ctrl = Modifiers { ctrl: true, ..Default::default() };
    assert!(ctrl.command_or_ctrl());
    assert_eq!(BlendMode::default(), BlendMode::Alpha);
}

#[test]
fn layout_ids() {
    let root = LayoutId::new("root");
    assert_eq!(root.as_str(), "root");
    let child = root.child(12);
    assert_eq!(child.as_str(), "root/12");
    assert_eq!(child.child(0).as_str(), "root/12/0");
}

#[test]
fn decimal_rendering() {
    let mut s = String::from("n=");
    push_decimal(&mut s, 0);
    assert_eq!(s, "n=0");
    let mut s = String::new();
    push_decimal(&mut s, 18446744073709551615);
    assert_eq!(s, "18446744073709551615");
}

#[test]
fn prefix_and_substring() {
    assert!(has_prefix("hello", "he"));
    assert!(has_prefix("hello", ""));
    assert!(!has_prefix("he", "hello"));
    assert!(contains_str("hello", "ll"));
    assert!(contains_str("hello", ""));
    assert!(!contains_str("hello", "lo!"));
    assert!(contains_str("héllo", "éll"));
}

#[test]
fn same_text_compares_characters() {
    assert!(same_text("row", "row"));
    assert!(!same_text("row", "rows"));
    assert!(!same_text("row", "raw"));
    assert!(same_text("", ""));
}


fn node(n: u32) -> CachedNode<u32> {
    CachedNode { node_id: n, style_hash: 1, children_hash: 2, data_hash: 3 }
}

#[test]
fn layout_cache_evicts_unused_nodes() {
    let mut cache: LayoutCache<u32> = LayoutCache::new();
    let a = LayoutId::new("a");
    let b = LayoutId::new("b");
    let c = LayoutId::new("c");
    cache.begin_frame();
    cache.insert(&a, node(1));
    cache.insert(&b, node(2));
    cache.insert(&c, node(3));
    cache.mark_live(&a);
    cache.mark_live(&c);
    cache.mark_live(&a);
    assert_eq!(cache.stats(), (3, 2));
    assert_eq!(cache.end_frame(), vec![2]);
    assert!(cache.get(&b).is_none());
    assert_eq!(cache.get(&c).unwrap().node_id, 3);
    cache.begin_frame();
    assert_eq!(cache.stats(), (2, 0));
    assert_eq!(cache.end_frame(), vec![1, 3]);
    assert_eq!(cache.stats(), (0, 0));
}

#[test]
fn layout_cache_insert_replaces() {
    let mut cache: LayoutCache<u32> = LayoutCache::new();
    let a = LayoutId::new("root/0");
    cache.insert(&a, node(1));
    cache.insert(&LayoutId::new("root/0"), node(9));
    assert_eq!(cache.stats().0, 1);
    assert_eq!(cache.get(&a).unwrap().node_id, 9);
}
