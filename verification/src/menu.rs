//! Application menus as data: modifier flags and key equivalents, menu items
//! and their builder, menus, the menu bar, and the registry that hands out
//! item ids and remembers the action of each item.
//!
//! The registry plays the part of process-wide state: every item built
//! through it gets the next id, and an item built with an action has that
//! action stored under its id, to be looked up when the item is chosen.

use vstd::prelude::*;
use std::collections::HashMap;

verus! {

/// Keyboard modifier flags for menu shortcuts.
#[derive(Debug, Clone, Copy, PartialEq, Eq, Structural)]
pub struct KeyModifiers {
    pub cmd: bool,
    pub shift: bool,
    pub alt: bool,
    pub ctrl: bool,
}

/// Modifier flags with exactly the given keys held.
pub open spec fn mods(cmd: bool, shift: bool, alt: bool, ctrl: bool) -> KeyModifiers {
    KeyModifiers { cmd, shift, alt, ctrl }
}

/// `bit` when `on`, else 0.
pub open spec fn flag(on: bool, bit: u64) -> u64 {
    if on { bit } else { 0 }
}

/// The platform modifier mask of `m`: command is bit 20, shift bit 17,
/// option bit 19 and control bit 18.
pub open spec fn modifier_mask(m: KeyModifiers) -> u64 {
    (flag(m.cmd, 0x10_0000) + flag(m.shift, 0x2_0000) + flag(m.alt, 0x8_0000) + flag(m.ctrl, 0x4_0000)) as u64
}

impl Default for KeyModifiers {
    fn default() -> (m: Self)
        ensures
            m == mods(false, false, false, false),
    {
        KeyModifiers { cmd: false, shift: false, alt: false, ctrl: false }
    }
}

impl KeyModifiers {
    /// Command alone.
    pub fn cmd() -> (m: Self)
        ensures
            m == mods(true, false, false, false),
    {
        KeyModifiers { cmd: true, ..Default::default() }
    }

    /// Command and shift.
    pub fn cmd_shift() -> (m: Self)
        ensures
            m == mods(true, true, false, false),
    {
        KeyModifiers { cmd: true, shift: true, ..Default::default() }
    }

    /// Command and option.
    pub fn cmd_alt() -> (m: Self)
        ensures
            m == mods(true, false, true, false),
    {
        KeyModifiers { cmd: true, alt: true, ..Default::default() }
    }

    /// The platform modifier mask for these flags.
    pub fn to_ns_modifier_mask(&self) -> (mask: u64)
        ensures
            mask == modifier_mask(*self),
    {
        let mut mask: u64 = 0;
        if self.cmd {
            mask = mask | (1u64 << 20u64);
        }
        if self.shift {
            mask = mask | (1u64 << 17u64);
        }
        if self.alt {
            mask = mask | (1u64 << 19u64);
        }
        if self.ctrl {
            mask = mask | (1u64 << 18u64);
        }
        proof {
            let a = flag(self.cmd, 0x10_0000);
            let b = flag(self.shift, 0x2_0000);
            let c = flag(self.alt, 0x8_0000);
            let d = flag(self.ctrl, 0x4_0000);
            assert((1u64 << 20u64) == 0x10_0000u64 && (1u64 << 17u64) == 0x2_0000u64
                && (1u64 << 19u64) == 0x8_0000u64 && (1u64 << 18u64) == 0x4_0000u64) by (bit_vector);
            assert(0u64 | a == a && ((0u64 | a) | b) == (a + b) as u64
                && (((0u64 | a) | b) | c) == (a + b + c) as u64
                && ((((0u64 | a) | b) | c) | d) == (a + b + c + d) as u64) by (bit_vector)
                requires
                    a == 0 || a == 0x10_0000,
                    b == 0 || b == 0x2_0000,
                    c == 0 || c == 0x8_0000,
                    d == 0 || d == 0x4_0000,
            ;
        }
        mask
    }
}

/// A keyboard shortcut for a menu item: the key equivalent and its modifiers.
#[derive(Debug, Clone)]
pub struct KeyboardShortcut {
    pub key: String,
    pub modifiers: KeyModifiers,
}

impl KeyboardShortcut {
    /// Command plus `key` (e.g. Cmd+N).
    pub fn cmd(key: &str) -> (s: Self)
        ensures
            s.key@ == key@,
            s.modifiers == mods(true, false, false, false),
    {
        KeyboardShortcut { key: key.to_owned(), modifiers: KeyModifiers::cmd() }
    }

    /// Command, shift and `key` (e.g. Cmd+Shift+S).
    pub fn cmd_shift(key: &str) -> (s: Self)
        ensures
            s.key@ == key@,
            s.modifiers == mods(true, true, false, false),
    {
        KeyboardShortcut { key: key.to_owned(), modifiers: KeyModifiers::cmd_shift() }
    }

    /// Command, option and `key`.
    pub fn cmd_alt(key: &str) -> (s: Self)
        ensures
            s.key@ == key@,
            s.modifiers == mods(true, false, true, false),
    {
        KeyboardShortcut { key: key.to_owned(), modifiers: KeyModifiers::cmd_alt() }
    }

    /// `key` with the given modifiers.
    pub fn with_modifiers(key: &str, modifiers: KeyModifiers) -> (s: Self)
        ensures
            s.key@ == key@,
            s.modifiers == modifiers,
    {
        KeyboardShortcut { key: key.to_owned(), modifiers }
    }
}

/// A menu item.
pub enum MenuItem {
    /// A clickable item with a title and optional shortcut; its action, if
    /// any, is stored in the registry under `id`.
    Action {
        id: u64,
        title: String,
        shortcut: Option<KeyboardShortcut>,
        enabled: bool,
        checked: bool,
    },
    /// A separator line.
    Separator,
    /// A submenu.
    Submenu { title: String, menu: Menu },
}

/// Whether `item` is an enabled, unchecked action item with id `id`, title
/// `title`, and the shortcut `shortcut` given as key and modifiers.
pub open spec fn is_plain_action(
    item: MenuItem,
    id: u64,
    title: Seq<char>,
    shortcut: Option<(Seq<char>, KeyModifiers)>,
) -> bool {
    match item {
        MenuItem::Action { id: i, title: t, shortcut: s, enabled, checked } => {
            &&& i == id
            &&& t@ == title
            &&& enabled
            &&& !checked
            &&& match shortcut {
                Some(k) => s is Some && s->0.key@ == k.0 && s->0.modifiers == k.1,
                None => s is None,
            }
        },
        _ => false,
    }
}

/// Hands out menu item ids and stores the action of each item built with one.
pub struct MenuRegistry<A> {
    next_id: u64,
    actions: HashMap<u64, A>,
}

impl<A> MenuRegistry<A> {
    /// The id the next item will get.
    pub closed spec fn next(&self) -> u64 {
        self.next_id
    }

    /// The stored actions, by item id.
    pub closed spec fn actions(&self) -> Map<u64, A> {
        self.actions@
    }

    /// A registry whose first id is 1 and that holds no action.
    pub fn new() -> (r: Self)
        ensures
            r.next() == 1,
            r.actions() == Map::<u64, A>::empty(),
    {
        MenuRegistry { next_id: 1, actions: HashMap::new() }
    }

    /// Take the next item id; ids wrap around after `u64::MAX`.
    pub fn next_item_id(&mut self) -> (id: u64)
        ensures
            id == old(self).next(),
            final(self).next() == old(self).next().wrapping_add(1),
            final(self).actions() == old(self).actions(),
    {
        let id = self.next_id;
        self.next_id = self.next_id.wrapping_add(1);
        id
    }

    /// Store `action` as the action of item `id`, replacing any earlier one.
    pub fn register_action(&mut self, id: u64, action: A)
        ensures
            final(self).next() == old(self).next(),
            final(self).actions() == old(self).actions().insert(id, action),
    {
        self.actions.insert(id, action);
    }

    /// The action of item `id`, if one is stored.
    pub fn action(&self, id: u64) -> (r: Option<&A>)
        ensures
            r is Some <==> self.actions().contains_key(id),
            r is Some ==> *(r->0) == self.actions()[id],
    {
        self.actions.get(&id)
    }
}

impl MenuItem {
    /// Start building an action item titled `title`; it gets the registry's
    /// next id.
    pub fn action<A>(registry: &mut MenuRegistry<A>, title: &str) -> (b: MenuItemBuilder<A>)
        ensures
            b.pending() == (MenuItem::Action {
                id: old(registry).next(),
                title: b.pending()->Action_title,
                shortcut: None,
                enabled: true,
                checked: false,
            }),
            b.pending()->Action_title@ == title@,
            b.pending_action() is None,
            final(registry).next() == old(registry).next().wrapping_add(1),
            final(registry).actions() == old(registry).actions(),
    {
        let id = registry.next_item_id();
        MenuItemBuilder {
            id,
            title: title.to_owned(),
            shortcut: None,
            enabled: true,
            checked: false,
            action: None,
        }
    }

    /// A separator.
    pub fn separator() -> (m: Self)
        ensures
            m is Separator,
    {
        MenuItem::Separator
    }

    /// A submenu titled `title`.
    pub fn submenu(title: &str, menu: Menu) -> (m: Self)
        ensures
            m is Submenu,
            m->Submenu_title@ == title@,
            m->menu == menu,
    {
        MenuItem::Submenu { title: title.to_owned(), menu }
    }
}

/// Builder for an action item; `A` is the type of the action it runs.
pub struct MenuItemBuilder<A> {
    id: u64,
    title: String,
    shortcut: Option<KeyboardShortcut>,
    enabled: bool,
    checked: bool,
    action: Option<A>,
}

impl<A> MenuItemBuilder<A> {
    /// The item this builder builds.
    pub closed spec fn pending(&self) -> MenuItem {
        MenuItem::Action {
            id: self.id,
            title: self.title,
            shortcut: self.shortcut,
            enabled: self.enabled,
            checked: self.checked,
        }
    }

    /// The action the item will run, if any.
    pub closed spec fn pending_action(&self) -> Option<A> {
        self.action
    }

    /// Set the keyboard shortcut.
    pub fn shortcut(self, shortcut: KeyboardShortcut) -> (b: Self)
        ensures
            b.pending() == (MenuItem::Action {
                id: self.pending()->Action_id,
                title: self.pending()->Action_title,
                shortcut: Some(shortcut),
                enabled: self.pending()->enabled,
                checked: self.pending()->checked,
            }),
            b.pending_action() == self.pending_action(),
    {
        MenuItemBuilder { shortcut: Some(shortcut), ..self }
    }

    /// Set whether the item is enabled.
    pub fn enabled(self, enabled: bool) -> (b: Self)
        ensures
            b.pending() == (MenuItem::Action {
                id: self.pending()->Action_id,
                title: self.pending()->Action_title,
                shortcut: self.pending()->shortcut,
                enabled: enabled,
                checked: self.pending()->checked,
            }),
            b.pending_action() == self.pending_action(),
    {
        MenuItemBuilder { enabled, ..self }
    }

    /// Set whether the item shows a checkmark.
    pub fn checked(self, checked: bool) -> (b: Self)
        ensures
            b.pending() == (MenuItem::Action {
                id: self.pending()->Action_id,
                title: self.pending()->Action_title,
                shortcut: self.pending()->shortcut,
                enabled: self.pending()->enabled,
                checked: checked,
            }),
            b.pending_action() == self.pending_action(),
    {
        MenuItemBuilder { checked, ..self }
    }

    /// Set the action run when the item is chosen.
    pub fn on_action(self, action: A) -> (b: Self)
        ensures
            b.pending() == self.pending(),
            b.pending_action() == Some(action),
    {
        MenuItemBuilder { action: Some(action), ..self }
    }

    /// Build the item, storing its action (if any) in the registry under the
    /// item's id.
    pub fn build(self, registry: &mut MenuRegistry<A>) -> (m: MenuItem)
        ensures
            m == self.pending(),
            final(registry).next() == old(registry).next(),
            final(registry).actions() == (match self.pending_action() {
                Some(a) => old(registry).actions().insert(self.pending()->Action_id, a),
                None => old(registry).actions(),
            }),
    {
        let MenuItemBuilder { id, title, shortcut, enabled, checked, action } = self;
        match action {
            Some(a) => registry.register_action(id, a),
            None => {},
        }
        MenuItem::Action { id, title, shortcut, enabled, checked }
    }
}

/// A menu: a title and its items, in order.
pub struct Menu {
    title: String,
    items: Vec<MenuItem>,
}

impl Menu {
    /// The menu's title.
    pub closed spec fn title_view(&self) -> Seq<char> {
        self.title@
    }

    /// The menu's items, in order.
    pub closed spec fn entries(&self) -> Seq<MenuItem> {
        self.items@
    }

    /// An empty menu titled `title`.
    pub fn new(title: &str) -> (m: Self)
        ensures
            m.title_view() == title@,
            m.entries() == Seq::<MenuItem>::empty(),
    {
        Menu { title: title.to_owned(), items: Vec::new() }
    }

    /// Append `item`.
    pub fn item(self, item: MenuItem) -> (m: Self)
        ensures
            m.title_view() == self.title_view(),
            m.entries() == self.entries().push(item),
    {
        let mut m = self;
        m.items.push(item);
        m
    }

    /// Append `items`, in order.
    pub fn items(self, items: Vec<MenuItem>) -> (m: Self)
        ensures
            m.title_view() == self.title_view(),
            m.entries() == self.entries() + items@,
    {
        let mut m = self;
        let mut items = items;
        m.items.append(&mut items);
        m
    }

    /// Append a separator.
    pub fn separator(self) -> (m: Self)
        ensures
            m.title_view() == self.title_view(),
            m.entries() == self.entries().push(MenuItem::Separator),
    {
        let mut m = self;
        m.items.push(MenuItem::Separator);
        m
    }

    /// The title.
    pub fn title(&self) -> (r: &str)
        ensures
            r@ == self.title_view(),
    {
        self.title.as_str()
    }

    /// The items, in order.
    pub fn menu_items(&self) -> (r: &[MenuItem])
        ensures
            r@ == self.entries(),
    {
        self.items.as_slice()
    }
}

/// `n` advanced by `k` ids, wrapping around after `u64::MAX`.
pub open spec fn advance(n: u64, k: nat) -> u64
    decreases k,
{
    if k == 0 {
        n
    } else {
        advance(n, (k - 1) as nat).wrapping_add(1)
    }
}

/// The actions run by the items of the standard application menu.
pub struct AppMenuActions<A> {
    /// Show the about panel.
    pub about: A,
    /// Hide the application.
    pub hide: A,
    /// Hide the other applications.
    pub hide_others: A,
    /// Show all applications.
    pub show_all: A,
    /// Quit.
    pub quit: A,
}

/// `m` is the standard application menu for `app_name`, its items numbered
/// from `n`: About, a separator, Hide (Cmd+H), Hide Others (Cmd+Alt+H),
/// Show All, a separator, and Quit (Cmd+Q).
pub open spec fn is_app_menu(m: Menu, app_name: Seq<char>, n: u64) -> bool {
    &&& m.title_view() == Seq::<char>::empty()
    &&& m.entries().len() == 7
    &&& is_plain_action(m.entries()[0], n, "About "@ + app_name, None)
    &&& m.entries()[1] is Separator
    &&& is_plain_action(m.entries()[2], advance(n, 1), "Hide "@ + app_name, Some(("h"@, mods(true, false, false, false))))
    &&& is_plain_action(m.entries()[3], advance(n, 2), "Hide Others"@, Some(("h"@, mods(true, false, true, false))))
    &&& is_plain_action(m.entries()[4], advance(n, 3), "Show All"@, None)
    &&& m.entries()[5] is Separator
    &&& is_plain_action(m.entries()[6], advance(n, 4), "Quit "@ + app_name, Some(("q"@, mods(true, false, false, false))))
}

/// `after` is `before` with the application menu's actions stored under the
/// ids numbered from `n`.
pub open spec fn app_actions_stored<A>(before: Map<u64, A>, after: Map<u64, A>, n: u64, actions: AppMenuActions<A>) -> bool {
    after == before.insert(n, actions.about).insert(advance(n, 1), actions.hide).insert(
        advance(n, 2),
        actions.hide_others,
    ).insert(advance(n, 3), actions.show_all).insert(advance(n, 4), actions.quit)
}

/// `m` is the standard Edit menu, its items numbered from `n`: Undo (Cmd+Z),
/// Redo (Cmd+Shift+Z), a separator, Cut (Cmd+X), Copy (Cmd+C), Paste
/// (Cmd+V) and Select All (Cmd+A).
pub open spec fn is_edit_menu(m: Menu, n: u64) -> bool {
    &&& m.title_view() == "Edit"@
    &&& m.entries().len() == 7
    &&& is_plain_action(m.entries()[0], n, "Undo"@, Some(("z"@, mods(true, false, false, false))))
    &&& is_plain_action(m.entries()[1], advance(n, 1), "Redo"@, Some(("z"@, mods(true, true, false, false))))
    &&& m.entries()[2] is Separator
    &&& is_plain_action(m.entries()[3], advance(n, 2), "Cut"@, Some(("x"@, mods(true, false, false, false))))
    &&& is_plain_action(m.entries()[4], advance(n, 3), "Copy"@, Some(("c"@, mods(true, false, false, false))))
    &&& is_plain_action(m.entries()[5], advance(n, 4), "Paste"@, Some(("v"@, mods(true, false, false, false))))
    &&& is_plain_action(m.entries()[6], advance(n, 5), "Select All"@, Some(("a"@, mods(true, false, false, false))))
}

/// `m` is the standard Window menu, its items numbered from `n`: Minimize
/// (Cmd+M), Zoom, a separator, and Bring All to Front.
pub open spec fn is_window_menu(m: Menu, n: u64) -> bool {
    &&& m.title_view() == "Window"@
    &&& m.entries().len() == 4
    &&& is_plain_action(m.entries()[0], n, "Minimize"@, Some(("m"@, mods(true, false, false, false))))
    &&& is_plain_action(m.entries()[1], advance(n, 1), "Zoom"@, None)
    &&& m.entries()[2] is Separator
    &&& is_plain_action(m.entries()[3], advance(n, 2), "Bring All to Front"@, None)
}

/// `m` is the standard Help menu for `app_name`, its one item numbered `n`.
pub open spec fn is_help_menu(m: Menu, app_name: Seq<char>, n: u64) -> bool {
    &&& m.title_view() == "Help"@
    &&& m.entries().len() == 1
    &&& is_plain_action(m.entries()[0], n, app_name + " Help"@, None)
}

/// `title` followed by `suffix`.
fn concat(title: &str, suffix: &str) -> (s: String)
    ensures
        s@ == title@ + suffix@,
{
    let mut s = title.to_owned();
    s.append(suffix);
    s
}

impl Menu {
    /// The standard application menu for `app_name`, with the given actions.
    pub fn app_menu<A>(registry: &mut MenuRegistry<A>, app_name: &str, actions: AppMenuActions<A>) -> (m: Self)
        ensures
            is_app_menu(m, app_name@, old(registry).next()),
            final(registry).next() == advance(old(registry).next(), 5),
            app_actions_stored(old(registry).actions(), final(registry).actions(), old(registry).next(), actions),
    {
        let ghost n = registry.next();
        let AppMenuActions { about, hide, hide_others, show_all, quit } = actions;
        let about_title = concat("About ", app_name);
        let i0 = MenuItem::action(registry, about_title.as_str()).on_action(about).build(registry);
        let hide_title = concat("Hide ", app_name);
        let i2 = MenuItem::action(registry, hide_title.as_str()).shortcut(KeyboardShortcut::cmd("h")).on_action(
            hide,
        ).build(registry);
        let i3 = MenuItem::action(registry, "Hide Others").shortcut(KeyboardShortcut::cmd_alt("h")).on_action(
            hide_others,
        ).build(registry);
        let i4 = MenuItem::action(registry, "Show All").on_action(show_all).build(registry);
        let quit_title = concat("Quit ", app_name);
        let i6 = MenuItem::action(registry, quit_title.as_str()).shortcut(KeyboardShortcut::cmd("q")).on_action(
            quit,
        ).build(registry);
        let m = Menu::new("").item(i0).separator().item(i2).item(i3).item(i4).separator().item(i6);
        proof {
            reveal_with_fuel(advance, 6);
            assert(""@ =~= Seq::<char>::empty()) by {
                reveal_strlit("");
            }
        }
        m
    }

    /// The standard Edit menu.
    pub fn edit_menu<A>(registry: &mut MenuRegistry<A>) -> (m: Self)
        ensures
            is_edit_menu(m, old(registry).next()),
            final(registry).next() == advance(old(registry).next(), 6),
            final(registry).actions() == old(registry).actions(),
    {
        let i0 = MenuItem::action(registry, "Undo").shortcut(KeyboardShortcut::cmd("z")).build(registry);
        let i1 = MenuItem::action(registry, "Redo").shortcut(KeyboardShortcut::cmd_shift("z")).build(registry);
        let i3 = MenuItem::action(registry, "Cut").shortcut(KeyboardShortcut::cmd("x")).build(registry);
        let i4 = MenuItem::action(registry, "Copy").shortcut(KeyboardShortcut::cmd("c")).build(registry);
        let i5 = MenuItem::action(registry, "Paste").shortcut(KeyboardShortcut::cmd("v")).build(registry);
        let i6 = MenuItem::action(registry, "Select All").shortcut(KeyboardShortcut::cmd("a")).build(registry);
        let m = Menu::new("Edit").item(i0).item(i1).separator().item(i3).item(i4).item(i5).item(i6);
        proof {
            reveal_with_fuel(advance, 7);
        }
        m
    }

    /// The standard Window menu.
    pub fn window_menu<A>(registry: &mut MenuRegistry<A>) -> (m: Self)
        ensures
            is_window_menu(m, old(registry).next()),
            final(registry).next() == advance(old(registry).next(), 3),
            final(registry).actions() == old(registry).actions(),
    {
        let i0 = MenuItem::action(registry, "Minimize").shortcut(KeyboardShortcut::cmd("m")).build(registry);
        let i1 = MenuItem::action(registry, "Zoom").build(registry);
        let i3 = MenuItem::action(registry, "Bring All to Front").build(registry);
        let m = Menu::new("Window").item(i0).item(i1).separator().item(i3);
        proof {
            reveal_with_fuel(advance, 4);
        }
        m
    }

    /// The standard Help menu for `app_name`.
    pub fn help_menu<A>(registry: &mut MenuRegistry<A>, app_name: &str) -> (m: Self)
        ensures
            is_help_menu(m, app_name@, old(registry).next()),
            final(registry).next() == advance(old(registry).next(), 1),
            final(registry).actions() == old(registry).actions(),
    {
        let title = concat(app_name, " Help");
        let i0 = MenuItem::action(registry, title.as_str()).build(registry);
        let m = Menu::new("Help").item(i0);
        proof {
            reveal_with_fuel(advance, 2);
        }
        m
    }
}

/// The menu bar: the application's name and its menus, in order.
pub struct MenuBar {
    app_name: String,
    menus: Vec<Menu>,
}

impl MenuBar {
    /// The application's name.
    pub closed spec fn name_view(&self) -> Seq<char> {
        self.app_name@
    }

    /// The menus, in order.
    pub closed spec fn menu_list(&self) -> Seq<Menu> {
        self.menus@
    }

    /// An empty menu bar for `app_name`.
    pub fn new(app_name: &str) -> (b: Self)
        ensures
            b.name_view() == app_name@,
            b.menu_list() == Seq::<Menu>::empty(),
    {
        MenuBar { app_name: app_name.to_owned(), menus: Vec::new() }
    }

    /// Append `menu`.
    pub fn menu(self, menu: Menu) -> (b: Self)
        ensures
            b.name_view() == self.name_view(),
            b.menu_list() == self.menu_list().push(menu),
    {
        let mut b = self;
        b.menus.push(menu);
        b
    }

    /// Append the standard application menu, with the given actions.
    pub fn with_app_menu<A>(self, registry: &mut MenuRegistry<A>, actions: AppMenuActions<A>) -> (b: Self)
        ensures
            b.name_view() == self.name_view(),
            b.menu_list().len() == self.menu_list().len() + 1,
            b.menu_list().drop_last() == self.menu_list(),
            is_app_menu(b.menu_list().last(), self.name_view(), old(registry).next()),
            final(registry).next() == advance(old(registry).next(), 5),
            app_actions_stored(old(registry).actions(), final(registry).actions(), old(registry).next(), actions),
    {
        let app_name = self.app_name.clone();
        let m = Menu::app_menu(registry, app_name.as_str(), actions);
        let b = self.menu(m);
        assert(b.menu_list().drop_last() =~= self.menu_list());
        b
    }

    /// Append the standard Edit menu.
    pub fn with_edit_menu<A>(self, registry: &mut MenuRegistry<A>) -> (b: Self)
        ensures
            b.name_view() == self.name_view(),
            b.menu_list().len() == self.menu_list().len() + 1,
            b.menu_list().drop_last() == self.menu_list(),
            is_edit_menu(b.menu_list().last(), old(registry).next()),
            final(registry).next() == advance(old(registry).next(), 6),
            final(registry).actions() == old(registry).actions(),
    {
        let m = Menu::edit_menu(registry);
        let b = self.menu(m);
        assert(b.menu_list().drop_last() =~= self.menu_list());
        b
    }

    /// Append the standard Window menu.
    pub fn with_window_menu<A>(self, registry: &mut MenuRegistry<A>) -> (b: Self)
        ensures
            b.name_view() == self.name_view(),
            b.menu_list().len() == self.menu_list().len() + 1,
            b.menu_list().drop_last() == self.menu_list(),
            is_window_menu(b.menu_list().last(), old(registry).next()),
            final(registry).next() == advance(old(registry).next(), 3),
            final(registry).actions() == old(registry).actions(),
    {
        let m = Menu::window_menu(registry);
        let b = self.menu(m);
        assert(b.menu_list().drop_last() =~= self.menu_list());
        b
    }

    /// Append the standard Help menu.
    pub fn with_help_menu<A>(self, registry: &mut MenuRegistry<A>) -> (b: Self)
        ensures
            b.name_view() == self.name_view(),
            b.menu_list().len() == self.menu_list().len() + 1,
            b.menu_list().drop_last() == self.menu_list(),
            is_help_menu(b.menu_list().last(), self.name_view(), old(registry).next()),
            final(registry).next() == advance(old(registry).next(), 1),
            final(registry).actions() == old(registry).actions(),
    {
        let app_name = self.app_name.clone();
        let m = Menu::help_menu(registry, app_name.as_str());
        let b = self.menu(m);
        assert(b.menu_list().drop_last() =~= self.menu_list());
        b
    }

    /// The application's name.
    pub fn app_name(&self) -> (r: &str)
        ensures
            r@ == self.name_view(),
    {
        self.app_name.as_str()
    }

    /// The menus, in order.
    pub fn menus(&self) -> (r: &[Menu])
        ensures
            r@ == self.menu_list(),
    {
        self.menus.as_slice()
    }
}

/// Advancing by `k` ids is adding `k` modulo 2^64.
pub proof fn lemma_advance_mod(n: u64, k: nat)
    ensures
        advance(n, k) as int == (n + k) % 0x1_0000_0000_0000_0000,
    decreases k,
{
    let m: int = 0x1_0000_0000_0000_0000;
    if k == 0 {
        vstd::arithmetic::div_mod::lemma_small_mod(n as nat, m as nat);
    } else {
        lemma_advance_mod(n, (k - 1) as nat);
        let x = advance(n, (k - 1) as nat) as int;
        vstd::arithmetic::div_mod::lemma_add_mod_noop(n + k - 1, 1, m);
        vstd::arithmetic::div_mod::lemma_small_mod(1, m as nat);
        if x + 1 < m {
            vstd::arithmetic::div_mod::lemma_small_mod((x + 1) as nat, m as nat);
        } else {
            vstd::arithmetic::div_mod::lemma_mod_self_0(m);
        }
    }
}

/// Ids handed out one after another by a menu registry are distinct: the
/// `i`-th and the `j`-th id after `n` differ whenever fewer than 2^64 ids
/// lie between them.
pub proof fn law_item_ids_distinct(n: u64, i: nat, j: nat)
    requires
        i < j,
        j - i < 0x1_0000_0000_0000_0000,
    ensures
        advance(n, i) != advance(n, j),
{
    let m: int = 0x1_0000_0000_0000_0000;
    lemma_advance_mod(n, i);
    lemma_advance_mod(n, j);
    vstd::arithmetic::div_mod::lemma_mod_equivalence(n + j, n + i, m);
    vstd::arithmetic::div_mod::lemma_small_mod((j - i) as nat, m as nat);
}

} // verus!
