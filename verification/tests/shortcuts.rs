use sol_ui::interaction::shortcuts::{Shortcut, ShortcutRegistry, ShortcutScope};
use sol_ui::layer::{Key, Modifiers};

#[test]
fn test_shortcut_matching() {
    let shortcut = Shortcut::cmd(Key::C);

    let modifiers = Modifiers { cmd: true, ..Default::default() };
    assert!(shortcut.matches(Key::C, &modifiers));

    let no_mods = Modifiers::default();
    assert!(!shortcut.matches(Key::C, &no_mods));

    let wrong_key = Modifiers { cmd: true, ..Default::default() };
    assert!(!shortcut.matches(Key::V, &wrong_key));
}

#[test]
fn test_shortcut_display() {
    assert_eq!(Shortcut::cmd(Key::C).display_string(), "⌘C");
    assert_eq!(Shortcut::cmd_shift(Key::Z).display_string(), "⇧⌘Z");
    assert_eq!(Shortcut::key(Key::Escape).display_string(), "⎋");
}

#[test]
fn test_registry_basic() {
    let mut registry = ShortcutRegistry::new();

    let _id = registry.register(Shortcut::cmd(Key::C), "copy", ShortcutScope::Global);

    let modifiers = Modifiers { cmd: true, ..Default::default() };
    let result = registry.find_match(Key::C, &modifiers, None);

    assert!(result.is_some());
    assert_eq!(result.unwrap().action_name, "copy");
}

#[test]
fn test_conflict_detection() {
    let mut registry = ShortcutRegistry::new();

    registry.register(Shortcut::cmd(Key::C), "copy", ShortcutScope::Global);
    registry.register(Shortcut::cmd(Key::C), "duplicate", ShortcutScope::Global);

    let conflicts = registry.detect_conflicts();
    assert_eq!(conflicts.len(), 1);
    assert_eq!(conflicts[0].action_names.len(), 2);
}

#[test]
fn register_then_get_finds_the_new_shortcut() {
    let mut registry = ShortcutRegistry::new();
    let copy = registry.register(Shortcut::cmd(Key::C), "copy", ShortcutScope::Global);
    let paste = registry.register(Shortcut::cmd(Key::V), "paste", ShortcutScope::Global);
    assert_ne!(copy, paste);
    let info = registry.get(paste).unwrap();
    assert_eq!(info.id, paste);
    assert_eq!(info.action_name, "paste");
    assert_eq!(info.priority, 0);
    assert!(info.enabled);
    assert_eq!(registry.get(copy).unwrap().action_name, "copy");
}

#[test]
fn registration_ids_count_registrations() {
    let mut registry = ShortcutRegistry::new();
    let a = registry.register(Shortcut::cmd(Key::A), "a", ShortcutScope::Global);
    registry.unregister(a);
    let b = registry.register(Shortcut::cmd(Key::B), "b", ShortcutScope::Global);
    registry.clear();
    let c = registry.register(Shortcut::cmd(Key::C), "c", ShortcutScope::Global);
    assert_eq!((a.0, b.0, c.0), (1, 2, 3));
}
