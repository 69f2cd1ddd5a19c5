use sol_ui::menu::{
    AppMenuActions, KeyModifiers, KeyboardShortcut, Menu, MenuBar, MenuItem, MenuRegistry,
};

fn title_of(item: &MenuItem) -> Option<&str> {
    match item {
        MenuItem::Action { title, .. } => Some(title.as_str()),
        MenuItem::Submenu { title, .. } => Some(title.as_str()),
        MenuItem::Separator => None,
    }
}

fn id_of(item: &MenuItem) -> Option<u64> {
    match item {
        MenuItem::Action { id, .. } => Some(*id),
        _ => None,
    }
}

fn shortcut_of(item: &MenuItem) -> Option<(String, KeyModifiers)> {
    match item {
        MenuItem::Action { shortcut: Some(s), .. } => Some((s.key.clone(), s.modifiers)),
        _ => None,
    }
}

#[test]
fn modifier_masks() {
    assert_eq!(KeyModifiers::default().to_ns_modifier_mask(), 0);
    assert_eq!(KeyModifiers::cmd().to_ns_modifier_mask(), 1 << 20);
    assert_eq!(KeyModifiers::cmd_shift().to_ns_modifier_mask(), (1 << 20) | (1 << 17));
    assert_eq!(KeyModifiers::cmd_alt().to_ns_modifier_mask(), (1 << 20) | (1 << 19));
    let all = KeyModifiers { cmd: true, shift: true, alt: true, ctrl: true };
    assert_eq!(all.to_ns_modifier_mask(), 0x1E_0000);
    let ctrl = KeyModifiers { ctrl: true, ..Default::default() };
    assert_eq!(ctrl.to_ns_modifier_mask(), 1 << 18);
}

#[test]
fn keyboard_shortcut_constructors() {
    let s = KeyboardShortcut::cmd("n");
    assert_eq!(s.key, "n");
    assert_eq!(s.modifiers, KeyModifiers::cmd());
    let s = KeyboardShortcut::cmd_shift("s");
    assert_eq!(s.modifiers, KeyModifiers { cmd: true, shift: true, alt: false, ctrl: false });
    let s = KeyboardShortcut::cmd_alt("h");
    assert_eq!(s.modifiers, KeyModifiers { cmd: true, shift: false, alt: true, ctrl: false });
    let custom = KeyModifiers { ctrl: true, ..Default::default() };
    let s = KeyboardShortcut::with_modifiers("k", custom);
    assert_eq!(s.key, "k");
    assert_eq!(s.modifiers, custom);
}

#[test]
fn registry_hands_out_successive_ids() {
    let mut registry: MenuRegistry<u32> = MenuRegistry::new();
    assert_eq!(registry.next_item_id(), 1);
    assert_eq!(registry.next_item_id(), 2);
    let item = MenuItem::action(&mut registry, "Open").build(&mut registry);
    assert_eq!(id_of(&item), Some(3));
    assert!(registry.action(3).is_none());
}

#[test]
fn builder_sets_fields_and_stores_action() {
    let mut registry: MenuRegistry<&'static str> = MenuRegistry::new();
    let item = MenuItem::action(&mut registry, "Save")
        .shortcut(KeyboardShortcut::cmd("s"))
        .enabled(false)
        .checked(true)
        .on_action("save")
        .build(&mut registry);
    match &item {
        MenuItem::Action { id, title, shortcut, enabled, checked } => {
            assert_eq!(*id, 1);
            assert_eq!(title, "Save");
            assert_eq!(shortcut.as_ref().unwrap().key, "s");
            assert!(!enabled);
            assert!(checked);
        }
        _ => panic!("expected an action item"),
    }
    assert_eq!(registry.action(1), Some(&"save"));
    registry.register_action(1, "replaced");
    assert_eq!(registry.action(1), Some(&"replaced"));
}

#[test]
fn menu_builder_appends_in_order() {
    let m = Menu::new("File")
        .item(MenuItem::separator())
        .items(vec![MenuItem::separator(), MenuItem::submenu("Recent", Menu::new("Recent"))])
        .separator();
    assert_eq!(m.title(), "File");
    assert_eq!(m.menu_items().len(), 4);
    assert_eq!(title_of(&m.menu_items()[2]), Some("Recent"));
    assert!(matches!(m.menu_items()[3], MenuItem::Separator));
}

#[test]
fn standard_edit_menu() {
    let mut registry: MenuRegistry<u8> = MenuRegistry::new();
    let m = Menu::edit_menu(&mut registry);
    assert_eq!(m.title(), "Edit");
    let titles: Vec<Option<&str>> = m.menu_items().iter().map(title_of).collect();
    assert_eq!(
        titles,
        vec![Some("Undo"), Some("Redo"), None, Some("Cut"), Some("Copy"), Some("Paste"), Some("Select All")]
    );
    let ids: Vec<Option<u64>> = m.menu_items().iter().map(id_of).collect();
    assert_eq!(ids, vec![Some(1), Some(2), None, Some(3), Some(4), Some(5), Some(6)]);
    assert_eq!(shortcut_of(&m.menu_items()[1]), Some(("z".to_string(), KeyModifiers::cmd_shift())));
    assert_eq!(registry.next_item_id(), 7);
}

#[test]
fn standard_window_and_help_menus() {
    let mut registry: MenuRegistry<u8> = MenuRegistry::new();
    let w = Menu::window_menu(&mut registry);
    let titles: Vec<Option<&str>> = w.menu_items().iter().map(title_of).collect();
    assert_eq!(titles, vec![Some("Minimize"), Some("Zoom"), None, Some("Bring All to Front")]);
    assert_eq!(shortcut_of(&w.menu_items()[0]), Some(("m".to_string(), KeyModifiers::cmd())));
    assert_eq!(shortcut_of(&w.menu_items()[1]), None);
    let h = Menu::help_menu(&mut registry, "Demo");
    assert_eq!(h.title(), "Help");
    assert_eq!(title_of(&h.menu_items()[0]), Some("Demo Help"));
    assert_eq!(id_of(&h.menu_items()[0]), Some(4));
}

#[test]
fn standard_app_menu_registers_actions() {
    let mut registry: MenuRegistry<&'static str> = MenuRegistry::new();
    let actions = AppMenuActions { about: "about", hide: "hide", hide_others: "others", show_all: "all", quit: "quit" };
    let m = Menu::app_menu(&mut registry, "Demo", actions);
    assert_eq!(m.title(), "");
    let titles: Vec<Option<&str>> = m.menu_items().iter().map(title_of).collect();
    assert_eq!(
        titles,
        vec![Some("About Demo"), None, Some("Hide Demo"), Some("Hide Others"), Some("Show All"), None, Some("Quit Demo")]
    );
    assert_eq!(shortcut_of(&m.menu_items()[3]), Some(("h".to_string(), KeyModifiers::cmd_alt())));
    assert_eq!(shortcut_of(&m.menu_items()[6]), Some(("q".to_string(), KeyModifiers::cmd())));
    assert_eq!(registry.action(1), Some(&"about"));
    assert_eq!(registry.action(2), Some(&"hide"));
    assert_eq!(registry.action(3), Some(&"others"));
    assert_eq!(registry.action(4), Some(&"all"));
    assert_eq!(registry.action(5), Some(&"quit"));
    assert_eq!(registry.action(6), None);
}

#[test]
fn standard_menu_bar() {
    let mut registry: MenuRegistry<u8> = MenuRegistry::new();
    let actions = AppMenuActions { about: 1, hide: 2, hide_others: 3, show_all: 4, quit: 5 };
    let bar = MenuBar::new("Toy UI")
        .with_app_menu(&mut registry, actions)
        .with_edit_menu(&mut registry)
        .with_window_menu(&mut registry)
        .with_help_menu(&mut registry);
    assert_eq!(bar.app_name(), "Toy UI");
    let titles: Vec<&str> = bar.menus().iter().map(|m| m.title()).collect();
    assert_eq!(titles, vec!["", "Edit", "Window", "Help"]);
    assert_eq!(title_of(&bar.menus()[3].menu_items()[0]), Some("Toy UI Help"));
    // 5 + 6 + 3 + 1 ids were handed out
    assert_eq!(registry.next_item_id(), 16);
}
