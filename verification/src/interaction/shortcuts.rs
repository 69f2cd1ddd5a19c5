//! Keyboard shortcuts: key combinations, their display, and a registry
//! that matches key events by scope and priority and detects conflicts.

use vstd::prelude::*;
use crate::interaction::ElementId;
use crate::layer::{Key, Modifiers};
use crate::text::{decimal, push_decimal};
use crate::seqs::{keep, lemma_keep_map, lemma_keep_concat, lemma_keep_push, lemma_keep_contains, lemma_keep_none, lemma_keep_elements};

verus! {

/// Modifier requirements of a shortcut.
#[derive(Debug, Clone, Copy, PartialEq, Eq, Hash, Structural)]
pub struct ShortcutModifiers {
    pub shift: bool,
    pub ctrl: bool,
    pub alt: bool,
    pub cmd: bool,
}

impl Default for ShortcutModifiers {
    fn default() -> (m: Self)
        ensures
            m == (ShortcutModifiers { shift: false, ctrl: false, alt: false, cmd: false }),
    {
        ShortcutModifiers { shift: false, ctrl: false, alt: false, cmd: false }
    }
}

impl ShortcutModifiers {
    /// No modifier required.
    pub fn new() -> (m: Self)
        ensures
            m == (ShortcutModifiers { shift: false, ctrl: false, alt: false, cmd: false }),
    {
        Self::default()
    }

    /// Command.
    pub fn cmd() -> (m: Self)
        ensures
            m == (ShortcutModifiers { shift: false, ctrl: false, alt: false, cmd: true }),
    {
        ShortcutModifiers { shift: false, ctrl: false, alt: false, cmd: true }
    }

    /// Command and shift.
    pub fn cmd_shift() -> (m: Self)
        ensures
            m == (ShortcutModifiers { shift: true, ctrl: false, alt: false, cmd: true }),
    {
        ShortcutModifiers { shift: true, ctrl: false, alt: false, cmd: true }
    }

    /// Control.
    pub fn ctrl() -> (m: Self)
        ensures
            m == (ShortcutModifiers { shift: false, ctrl: true, alt: false, cmd: false }),
    {
        ShortcutModifiers { shift: false, ctrl: true, alt: false, cmd: false }
    }

    /// Alt (option).
    pub fn alt() -> (m: Self)
        ensures
            m == (ShortcutModifiers { shift: false, ctrl: false, alt: true, cmd: false }),
    {
        ShortcutModifiers { shift: false, ctrl: false, alt: true, cmd: false }
    }

    /// Shift.
    pub fn shift() -> (m: Self)
        ensures
            m == (ShortcutModifiers { shift: true, ctrl: false, alt: false, cmd: false }),
    {
        ShortcutModifiers { shift: true, ctrl: false, alt: false, cmd: false }
    }

    /// Whether the pressed modifiers are exactly the required ones (caps
    /// lock is ignored).
    pub fn matches(&self, modifiers: &Modifiers) -> (r: bool)
        ensures
            r == modifiers_match(*self, *modifiers),
    {
        self.shift == modifiers.shift && self.ctrl == modifiers.ctrl && self.alt == modifiers.alt
            && self.cmd == modifiers.cmd
    }
}

/// Pressed modifiers `m` are exactly the required `req`, ignoring caps lock.
pub open spec fn modifiers_match(req: ShortcutModifiers, m: Modifiers) -> bool {
    req.shift == m.shift && req.ctrl == m.ctrl && req.alt == m.alt && req.cmd == m.cmd
}

/// A keyboard shortcut: a key and the modifiers it requires.
#[derive(Debug, Clone, Copy, PartialEq, Eq, Hash, Structural)]
pub struct Shortcut {
    /// The primary key
    pub key: Key,
    /// Required modifier keys
    pub modifiers: ShortcutModifiers,
}

/// The label of a key in a shortcut's display string.
pub open spec fn key_label(key: Key) -> Seq<char> {
    match key {
        Key::A => "A"@,
        Key::B => "B"@,
        Key::C => "C"@,
        Key::D => "D"@,
        Key::E => "E"@,
        Key::F => "F"@,
        Key::G => "G"@,
        Key::H => "H"@,
        Key::I => "I"@,
        Key::J => "J"@,
        Key::K => "K"@,
        Key::L => "L"@,
        Key::M => "M"@,
        Key::N => "N"@,
        Key::O => "O"@,
        Key::P => "P"@,
        Key::Q => "Q"@,
        Key::R => "R"@,
        Key::S => "S"@,
        Key::T => "T"@,
        Key::U => "U"@,
        Key::V => "V"@,
        Key::W => "W"@,
        Key::X => "X"@,
        Key::Y => "Y"@,
        Key::Z => "Z"@,
        Key::Key0 => "0"@,
        Key::Key1 => "1"@,
        Key::Key2 => "2"@,
        Key::Key3 => "3"@,
        Key::Key4 => "4"@,
        Key::Key5 => "5"@,
        Key::Key6 => "6"@,
        Key::Key7 => "7"@,
        Key::Key8 => "8"@,
        Key::Key9 => "9"@,
        Key::F1 => "F1"@,
        Key::F2 => "F2"@,
        Key::F3 => "F3"@,
        Key::F4 => "F4"@,
        Key::F5 => "F5"@,
        Key::F6 => "F6"@,
        Key::F7 => "F7"@,
        Key::F8 => "F8"@,
        Key::F9 => "F9"@,
        Key::F10 => "F10"@,
        Key::F11 => "F11"@,
        Key::F12 => "F12"@,
        Key::Shift => "Shift"@,
        Key::Control => "Control"@,
        Key::Alt => "Alt"@,
        Key::Command => "Command"@,
        Key::CapsLock => "CapsLock"@,
        Key::LeftShift => "LeftShift"@,
        Key::RightShift => "RightShift"@,
        Key::LeftControl => "LeftControl"@,
        Key::RightControl => "RightControl"@,
        Key::LeftAlt => "LeftAlt"@,
        Key::RightAlt => "RightAlt"@,
        Key::LeftCommand => "LeftCommand"@,
        Key::RightCommand => "RightCommand"@,
        Key::Up => "\u{2191}"@,
        Key::Down => "\u{2193}"@,
        Key::Left => "\u{2190}"@,
        Key::Right => "\u{2192}"@,
        Key::Home => "\u{2196}"@,
        Key::End => "\u{2198}"@,
        Key::PageUp => "\u{21de}"@,
        Key::PageDown => "\u{21df}"@,
        Key::Backspace => "\u{232b}"@,
        Key::Delete => "\u{2326}"@,
        Key::Tab => "\u{21e5}"@,
        Key::Return => "\u{21a9}"@,
        Key::Escape => "\u{238b}"@,
        Key::Space => "Space"@,
        Key::Minus => "-"@,
        Key::Equal => "="@,
        Key::LeftBracket => "["@,
        Key::RightBracket => "]"@,
        Key::Backslash => "\\"@,
        Key::Semicolon => ";"@,
        Key::Quote => "'"@,
        Key::Grave => "`"@,
        Key::Comma => ","@,
        Key::Period => "."@,
        Key::Slash => "/"@,
        Key::Numpad0 => "Numpad0"@,
        Key::Numpad1 => "Numpad1"@,
        Key::Numpad2 => "Numpad2"@,
        Key::Numpad3 => "Numpad3"@,
        Key::Numpad4 => "Numpad4"@,
        Key::Numpad5 => "Numpad5"@,
        Key::Numpad6 => "Numpad6"@,
        Key::Numpad7 => "Numpad7"@,
        Key::Numpad8 => "Numpad8"@,
        Key::Numpad9 => "Numpad9"@,
        Key::NumpadDecimal => "NumpadDecimal"@,
        Key::NumpadMultiply => "NumpadMultiply"@,
        Key::NumpadPlus => "NumpadPlus"@,
        Key::NumpadClear => "NumpadClear"@,
        Key::NumpadDivide => "NumpadDivide"@,
        Key::NumpadEnter => "NumpadEnter"@,
        Key::NumpadMinus => "NumpadMinus"@,
        Key::NumpadEquals => "NumpadEquals"@,
        Key::Insert => "Insert"@,
        Key::PrintScreen => "PrintScreen"@,
        Key::ScrollLock => "ScrollLock"@,
        Key::Pause => "Pause"@,
        Key::Unknown(code) => "Unknown("@ + decimal(code as nat) + ")"@,
    }
}

/// The glyphs for a shortcut's modifiers, in the order control, option,
/// shift, command.
pub open spec fn modifier_glyphs(m: ShortcutModifiers) -> Seq<char> {
    (if m.ctrl { "\u{2303}"@ } else { Seq::empty() })
        + (if m.alt { "\u{2325}"@ } else { Seq::empty() })
        + (if m.shift { "\u{21e7}"@ } else { Seq::empty() })
        + (if m.cmd { "\u{2318}"@ } else { Seq::empty() })
}

/// The display string of a shortcut, such as "\u{21e7}\u{2318}Z".
pub open spec fn shortcut_label(s: Shortcut) -> Seq<char> {
    modifier_glyphs(s.modifiers) + key_label(s.key)
}

/// The display label of a key.
pub fn key_display_string(key: &Key) -> (s: String)
    ensures
        s@ == key_label(*key),
{
    match key {
        Key::A => "A".to_owned(),
        Key::B => "B".to_owned(),
        Key::C => "C".to_owned(),
        Key::D => "D".to_owned(),
        Key::E => "E".to_owned(),
        Key::F => "F".to_owned(),
        Key::G => "G".to_owned(),
        Key::H => "H".to_owned(),
        Key::I => "I".to_owned(),
        Key::J => "J".to_owned(),
        Key::K => "K".to_owned(),
        Key::L => "L".to_owned(),
        Key::M => "M".to_owned(),
        Key::N => "N".to_owned(),
        Key::O => "O".to_owned(),
        Key::P => "P".to_owned(),
        Key::Q => "Q".to_owned(),
        Key::R => "R".to_owned(),
        Key::S => "S".to_owned(),
        Key::T => "T".to_owned(),
        Key::U => "U".to_owned(),
        Key::V => "V".to_owned(),
        Key::W => "W".to_owned(),
        Key::X => "X".to_owned(),
        Key::Y => "Y".to_owned(),
        Key::Z => "Z".to_owned(),
        Key::Key0 => "0".to_owned(),
        Key::Key1 => "1".to_owned(),
        Key::Key2 => "2".to_owned(),
        Key::Key3 => "3".to_owned(),
        Key::Key4 => "4".to_owned(),
        Key::Key5 => "5".to_owned(),
        Key::Key6 => "6".to_owned(),
        Key::Key7 => "7".to_owned(),
        Key::Key8 => "8".to_owned(),
        Key::Key9 => "9".to_owned(),
        Key::F1 => "F1".to_owned(),
        Key::F2 => "F2".to_owned(),
        Key::F3 => "F3".to_owned(),
        Key::F4 => "F4".to_owned(),
        Key::F5 => "F5".to_owned(),
        Key::F6 => "F6".to_owned(),
        Key::F7 => "F7".to_owned(),
        Key::F8 => "F8".to_owned(),
        Key::F9 => "F9".to_owned(),
        Key::F10 => "F10".to_owned(),
        Key::F11 => "F11".to_owned(),
        Key::F12 => "F12".to_owned(),
        Key::Shift => "Shift".to_owned(),
        Key::Control => "Control".to_owned(),
        Key::Alt => "Alt".to_owned(),
        Key::Command => "Command".to_owned(),
        Key::CapsLock => "CapsLock".to_owned(),
        Key::LeftShift => "LeftShift".to_owned(),
        Key::RightShift => "RightShift".to_owned(),
        Key::LeftControl => "LeftControl".to_owned(),
        Key::RightControl => "RightControl".to_owned(),
        Key::LeftAlt => "LeftAlt".to_owned(),
        Key::RightAlt => "RightAlt".to_owned(),
        Key::LeftCommand => "LeftCommand".to_owned(),
        Key::RightCommand => "RightCommand".to_owned(),
        Key::Up => "\u{2191}".to_owned(),
        Key::Down => "\u{2193}".to_owned(),
        Key::Left => "\u{2190}".to_owned(),
        Key::Right => "\u{2192}".to_owned(),
        Key::Home => "\u{2196}".to_owned(),
        Key::End => "\u{2198}".to_owned(),
        Key::PageUp => "\u{21de}".to_owned(),
        Key::PageDown => "\u{21df}".to_owned(),
        Key::Backspace => "\u{232b}".to_owned(),
        Key::Delete => "\u{2326}".to_owned(),
        Key::Tab => "\u{21e5}".to_owned(),
        Key::Return => "\u{21a9}".to_owned(),
        Key::Escape => "\u{238b}".to_owned(),
        Key::Space => "Space".to_owned(),
        Key::Minus => "-".to_owned(),
        Key::Equal => "=".to_owned(),
        Key::LeftBracket => "[".to_owned(),
        Key::RightBracket => "]".to_owned(),
        Key::Backslash => "\\".to_owned(),
        Key::Semicolon => ";".to_owned(),
        Key::Quote => "'".to_owned(),
        Key::Grave => "`".to_owned(),
        Key::Comma => ",".to_owned(),
        Key::Period => ".".to_owned(),
        Key::Slash => "/".to_owned(),
        Key::Numpad0 => "Numpad0".to_owned(),
        Key::Numpad1 => "Numpad1".to_owned(),
        Key::Numpad2 => "Numpad2".to_owned(),
        Key::Numpad3 => "Numpad3".to_owned(),
        Key::Numpad4 => "Numpad4".to_owned(),
        Key::Numpad5 => "Numpad5".to_owned(),
        Key::Numpad6 => "Numpad6".to_owned(),
        Key::Numpad7 => "Numpad7".to_owned(),
        Key::Numpad8 => "Numpad8".to_owned(),
        Key::Numpad9 => "Numpad9".to_owned(),
        Key::NumpadDecimal => "NumpadDecimal".to_owned(),
        Key::NumpadMultiply => "NumpadMultiply".to_owned(),
        Key::NumpadPlus => "NumpadPlus".to_owned(),
        Key::NumpadClear => "NumpadClear".to_owned(),
        Key::NumpadDivide => "NumpadDivide".to_owned(),
        Key::NumpadEnter => "NumpadEnter".to_owned(),
        Key::NumpadMinus => "NumpadMinus".to_owned(),
        Key::NumpadEquals => "NumpadEquals".to_owned(),
        Key::Insert => "Insert".to_owned(),
        Key::PrintScreen => "PrintScreen".to_owned(),
        Key::ScrollLock => "ScrollLock".to_owned(),
        Key::Pause => "Pause".to_owned(),
        Key::Unknown(code) => {
            let mut s = "Unknown(".to_owned();
            push_decimal(&mut s, *code as u64);
            s.append(")");
            s
        },
    }
}

impl Shortcut {
    /// A shortcut of `key` with `modifiers`.
    pub fn new(key: Key, modifiers: ShortcutModifiers) -> (s: Self)
        ensures
            s == (Shortcut { key, modifiers }),
    {
        Shortcut { key, modifiers }
    }

    /// A shortcut of `key` alone.
    pub fn key(key: Key) -> (s: Self)
        ensures
            s == (Shortcut { key, modifiers: ShortcutModifiers { shift: false, ctrl: false, alt: false, cmd: false } }),
    {
        Shortcut { key, modifiers: ShortcutModifiers::default() }
    }

    /// Command + `key`.
    pub fn cmd(key: Key) -> (s: Self)
        ensures
            s == (Shortcut { key, modifiers: ShortcutModifiers { shift: false, ctrl: false, alt: false, cmd: true } }),
    {
        Shortcut { key, modifiers: ShortcutModifiers::cmd() }
    }

    /// Command + shift + `key`.
    pub fn cmd_shift(key: Key) -> (s: Self)
        ensures
            s == (Shortcut { key, modifiers: ShortcutModifiers { shift: true, ctrl: false, alt: false, cmd: true } }),
    {
        Shortcut { key, modifiers: ShortcutModifiers::cmd_shift() }
    }

    /// Control + `key`.
    pub fn ctrl(key: Key) -> (s: Self)
        ensures
            s == (Shortcut { key, modifiers: ShortcutModifiers { shift: false, ctrl: true, alt: false, cmd: false } }),
    {
        Shortcut { key, modifiers: ShortcutModifiers::ctrl() }
    }

    /// Alt + `key`.
    pub fn alt(key: Key) -> (s: Self)
        ensures
            s == (Shortcut { key, modifiers: ShortcutModifiers { shift: false, ctrl: false, alt: true, cmd: false } }),
    {
        Shortcut { key, modifiers: ShortcutModifiers::alt() }
    }

    /// Whether `key` pressed with `modifiers` triggers this shortcut.
    pub fn matches(&self, key: Key, modifiers: &Modifiers) -> (r: bool)
        ensures
            r == (self.key == key && modifiers_match(self.modifiers, *modifiers)),
    {
        self.key == key && self.modifiers.matches(modifiers)
    }

    /// Human-readable form: modifier glyphs then the key label.
    pub fn display_string(&self) -> (s: String)
        ensures
            s@ == shortcut_label(*self),
    {
        let mut s = String::new();
        if self.modifiers.ctrl {
            s.append("\u{2303}");
        }
        if self.modifiers.alt {
            s.append("\u{2325}");
        }
        if self.modifiers.shift {
            s.append("\u{21e7}");
        }
        if self.modifiers.cmd {
            s.append("\u{2318}");
        }
        let label = key_display_string(&self.key);
        s.append(label.as_str());
        proof {
            assert(s@ =~= shortcut_label(*self));
        }
        s
    }
}


/// Unique identifier of a registered shortcut.
#[derive(Debug, Clone, Copy, PartialEq, Eq, Hash, Structural)]
pub struct ShortcutId(pub u64);

impl ShortcutId {
    /// A shortcut id with the given value.
    pub fn new(id: u64) -> (r: Self)
        ensures
            r.0 == id,
    {
        ShortcutId(id)
    }
}

/// When a shortcut is active.
#[derive(Debug, Clone, Copy, PartialEq, Eq, Hash, Structural)]
pub enum ShortcutScope {
    /// Always active
    Global,
    /// Active only while the given element has focus
    Focused(ElementId),
    /// Active only while the given context is the active one
    Context(u64),
}

/// A registered shortcut.
#[derive(Debug, Clone)]
pub struct ShortcutInfo {
    /// Unique identifier
    pub id: ShortcutId,
    /// The key combination
    pub shortcut: Shortcut,
    /// Human-readable action name (e.g. "copy")
    pub action_name: String,
    /// Description for tooltips and help
    pub description: Option<String>,
    /// When the shortcut is active
    pub scope: ShortcutScope,
    /// Priority; higher wins when several shortcuts match
    pub priority: i32,
    /// Whether the shortcut is enabled
    pub enabled: bool,
}

/// A shortcut that matched a key event.
#[derive(Debug, Clone)]
pub struct ShortcutMatch {
    pub id: ShortcutId,
    pub action_name: String,
}

/// Enabled global shortcuts bound to the same key combination.
#[derive(Debug, Clone)]
pub struct ShortcutConflict {
    pub shortcut: Shortcut,
    pub conflicting_ids: Vec<ShortcutId>,
    pub action_names: Vec<String>,
}

/// Registry of keyboard shortcuts.
pub struct ShortcutRegistry {
    shortcuts: Vec<(ShortcutId, ShortcutInfo)>,
    next_id: u64,
    active_context: Option<u64>,
}

impl ShortcutRegistry {
    /// Registered shortcuts with the ids they were registered under, in
    /// registration order.
    pub closed spec fn entries(&self) -> Seq<(ShortcutId, ShortcutInfo)> {
        self.shortcuts@
    }

    /// The id the next registration receives.
    pub closed spec fn next_id(&self) -> u64 {
        self.next_id
    }

    /// The active context for context-scoped shortcuts.
    pub closed spec fn active_context(&self) -> Option<u64> {
        self.active_context
    }

    /// Invariant: registration ids increase in registration order and are
    /// below the next id.
    pub closed spec fn wf(&self) -> bool {
        &&& forall|i: int, j: int| 0 <= i < j < self.shortcuts@.len() ==>
                (#[trigger] self.shortcuts@[i]).0.0 < (#[trigger] self.shortcuts@[j]).0.0
        &&& forall|i: int| 0 <= i < self.shortcuts@.len() ==> (#[trigger] self.shortcuts@[i]).0.0 < self.next_id
    }

    /// Whether a shortcut is registered under `id`.
    pub open spec fn has(&self, id: ShortcutId) -> bool {
        exists|i: int| 0 <= i < self.entries().len() && (#[trigger] self.entries()[i]).0 == id
    }

    /// The position of the shortcut registered under `id`.
    pub open spec fn position(&self, id: ShortcutId) -> int {
        choose|i: int| 0 <= i < self.entries().len() && (#[trigger] self.entries()[i]).0 == id
    }

    /// `after` is this registry after registering `shortcut` for the action
    /// `name` in `scope` under `id`: the next id, enabled, priority 0, no
    /// description, appended after the existing shortcuts.
    pub open spec fn registered(self, after: Self, id: ShortcutId, shortcut: Shortcut, name: Seq<char>, scope: ShortcutScope) -> bool {
        &&& id.0 == self.next_id()
        &&& after.next_id() == self.next_id() + 1
        &&& after.active_context() == self.active_context()
        &&& after.entries().len() == self.entries().len() + 1
        &&& after.entries().drop_last() == self.entries()
        &&& after.entries().last().0 == id
        &&& after.entries().last().1.id == id
        &&& after.entries().last().1.shortcut == shortcut
        &&& after.entries().last().1.action_name@ == name
        &&& after.entries().last().1.description is None
        &&& after.entries().last().1.scope == scope
        &&& after.entries().last().1.priority == 0
        &&& after.entries().last().1.enabled
    }

    /// An empty registry.
    pub fn new() -> (r: Self)
        ensures
            r.wf(),
            r.entries() == Seq::<(ShortcutId, ShortcutInfo)>::empty(),
            r.next_id() == 1,
            r.active_context() is None,
    {
        ShortcutRegistry { shortcuts: Vec::new(), next_id: 1, active_context: None }
    }

    /// The position of `id`, if registered.
    fn find_index(&self, id: ShortcutId) -> (r: Option<usize>)
        requires
            self.wf(),
        ensures
            r is None <==> !self.has(id),
            r is Some ==> r->0 == self.position(id) && (r->0 as int) < self.entries().len(),
    {
        let mut i: usize = 0;
        while i < self.shortcuts.len()
            invariant
                self.wf(),
                i <= self.shortcuts@.len(),
                forall|k: int| 0 <= k < i ==> (#[trigger] self.shortcuts@[k]).0 != id,
            decreases self.shortcuts@.len() - i,
        {
            if self.shortcuts[i].0 == id {
                proof {
                    assert(self.entries()[i as int].0 == id);
                    assert(self.has(id));
                    let p = self.position(id);
                    if p != i as int {
                        if p < i as int {
                            assert(self.shortcuts@[p].0.0 < self.shortcuts@[i as int].0.0);
                        } else {
                            assert(self.shortcuts@[i as int].0.0 < self.shortcuts@[p].0.0);
                        }
                    }
                }
                return Some(i);
            }
            i = i + 1;
        }
        None
    }

    /// Register `shortcut` for the action `action_name` in `scope`; it is
    /// enabled, with priority 0 and no description.  Returns its id.
    pub fn register(&mut self, shortcut: Shortcut, action_name: &str, scope: ShortcutScope) -> (id: ShortcutId)
        requires
            old(self).wf(),
            old(self).next_id() < u64::MAX,
        ensures
            final(self).wf(),
            old(self).registered(*final(self), id, shortcut, action_name@, scope),
    {
        let id = ShortcutId(self.next_id);
        self.next_id = self.next_id + 1;
        let info = ShortcutInfo {
            id,
            shortcut,
            action_name: action_name.to_owned(),
            description: None,
            scope,
            priority: 0,
            enabled: true,
        };
        self.shortcuts.push((id, info));
        proof {
            assert(self.entries().drop_last() =~= old(self).entries());
        }
        id
    }

    /// Register a fully configured shortcut; its `id` field is replaced by
    /// the id it is registered under, which is returned.
    pub fn register_full(&mut self, info: ShortcutInfo) -> (id: ShortcutId)
        requires
            old(self).wf(),
            old(self).next_id() < u64::MAX,
        ensures
            final(self).wf(),
            id.0 == old(self).next_id(),
            final(self).next_id() == old(self).next_id() + 1,
            final(self).active_context() == old(self).active_context(),
            final(self).entries() == old(self).entries().push((id, ShortcutInfo { id, ..info })),
    {
        let mut info = info;
        let id = ShortcutId(self.next_id);
        self.next_id = self.next_id + 1;
        info.id = id;
        self.shortcuts.push((id, info));
        id
    }

    /// Remove the shortcut registered under `id`, if any.
    pub fn unregister(&mut self, id: ShortcutId)
        requires
            old(self).wf(),
        ensures
            final(self).wf(),
            final(self).entries() == (if old(self).has(id) {
                old(self).entries().remove(old(self).position(id))
            } else {
                old(self).entries()
            }),
            final(self).next_id() == old(self).next_id(),
            final(self).active_context() == old(self).active_context(),
    {
        if let Some(i) = self.find_index(id) {
            let ghost before = self.shortcuts@;
            self.shortcuts.remove(i);
            proof {
                assert forall|a: int, b: int| 0 <= a < b < self.shortcuts@.len() implies
                    (#[trigger] self.shortcuts@[a]).0.0 < (#[trigger] self.shortcuts@[b]).0.0 by {
                    let a0 = if a < i { a } else { a + 1 };
                    let b0 = if b < i { b } else { b + 1 };
                    assert(self.shortcuts@[a] == before[a0]);
                    assert(self.shortcuts@[b] == before[b0]);
                    assert(before[a0].0.0 < before[b0].0.0);
                }
                assert forall|a: int| 0 <= a < self.shortcuts@.len() implies
                    (#[trigger] self.shortcuts@[a]).0.0 < self.next_id by {
                    let a0 = if a < i { a } else { a + 1 };
                    assert(self.shortcuts@[a] == before[a0]);
                }
            }
        }
    }

    /// Enable or disable the shortcut registered under `id`, if any.
    pub fn set_enabled(&mut self, id: ShortcutId, enabled: bool)
        requires
            old(self).wf(),
        ensures
            final(self).wf(),
            final(self).entries() == (if old(self).has(id) {
                old(self).entries().update(
                    old(self).position(id),
                    (id, ShortcutInfo { enabled, ..old(self).entries()[old(self).position(id)].1 }),
                )
            } else {
                old(self).entries()
            }),
            final(self).next_id() == old(self).next_id(),
            final(self).active_context() == old(self).active_context(),
    {
        if let Some(i) = self.find_index(id) {
            let ghost before = self.shortcuts@;
            let mut entry = (ShortcutId(0), ShortcutInfo {
                id: ShortcutId(0),
                shortcut: Shortcut::key(Key::A),
                action_name: String::new(),
                description: None,
                scope: ShortcutScope::Global,
                priority: 0,
                enabled: false,
            });
            std::mem::swap(&mut entry, &mut self.shortcuts[i]);
            entry.1.enabled = enabled;
            self.shortcuts.set(i, entry);
            proof {
                assert forall|a: int, b: int| 0 <= a < b < self.shortcuts@.len() implies
                    (#[trigger] self.shortcuts@[a]).0.0 < (#[trigger] self.shortcuts@[b]).0.0 by {
                    assert(self.shortcuts@[a].0 == before[a].0);
                    assert(self.shortcuts@[b].0 == before[b].0);
                }
                assert forall|a: int| 0 <= a < self.shortcuts@.len() implies
                    (#[trigger] self.shortcuts@[a]).0.0 < self.next_id by {
                    assert(self.shortcuts@[a].0 == before[a].0);
                }
            }
        }
    }

    /// Bind the shortcut registered under `id` to a new key combination;
    /// returns whether `id` is registered.
    pub fn rebind(&mut self, id: ShortcutId, new_shortcut: Shortcut) -> (found: bool)
        requires
            old(self).wf(),
        ensures
            final(self).wf(),
            found == old(self).has(id),
            final(self).entries() == (if old(self).has(id) {
                old(self).entries().update(
                    old(self).position(id),
                    (id, ShortcutInfo { shortcut: new_shortcut, ..old(self).entries()[old(self).position(id)].1 }),
                )
            } else {
                old(self).entries()
            }),
            final(self).next_id() == old(self).next_id(),
            final(self).active_context() == old(self).active_context(),
    {
        if let Some(i) = self.find_index(id) {
            let ghost before = self.shortcuts@;
            let mut entry = (ShortcutId(0), ShortcutInfo {
                id: ShortcutId(0),
                shortcut: Shortcut::key(Key::A),
                action_name: String::new(),
                description: None,
                scope: ShortcutScope::Global,
                priority: 0,
                enabled: false,
            });
            std::mem::swap(&mut entry, &mut self.shortcuts[i]);
            entry.1.shortcut = new_shortcut;
            self.shortcuts.set(i, entry);
            proof {
                assert forall|a: int, b: int| 0 <= a < b < self.shortcuts@.len() implies
                    (#[trigger] self.shortcuts@[a]).0.0 < (#[trigger] self.shortcuts@[b]).0.0 by {
                    assert(self.shortcuts@[a].0 == before[a].0);
                    assert(self.shortcuts@[b].0 == before[b].0);
                }
                assert forall|a: int| 0 <= a < self.shortcuts@.len() implies
                    (#[trigger] self.shortcuts@[a]).0.0 < self.next_id by {
                    assert(self.shortcuts@[a].0 == before[a].0);
                }
            }
            true
        } else {
            false
        }
    }

    /// Set the active context for context-scoped shortcuts.
    pub fn set_active_context(&mut self, context: Option<u64>)
        requires
            old(self).wf(),
        ensures
            final(self).wf(),
            final(self).active_context() == context,
            final(self).entries() == old(self).entries(),
            final(self).next_id() == old(self).next_id(),
    {
        self.active_context = context;
    }

    /// The shortcut registered under `id`.
    pub fn get(&self, id: ShortcutId) -> (r: Option<&ShortcutInfo>)
        requires
            self.wf(),
        ensures
            r is Some <==> self.has(id),
            r is Some ==> *(r->0) == self.entries()[self.position(id)].1,
    {
        match self.find_index(id) {
            Some(i) => Some(&self.shortcuts[i].1),
            None => None,
        }
    }

    /// All registered shortcuts, in registration order.
    pub fn all(&self) -> (r: Vec<&ShortcutInfo>)
        ensures
            r@.len() == self.entries().len(),
            forall|i: int| 0 <= i < r@.len() ==> *(#[trigger] r@[i]) == self.entries()[i].1,
    {
        let mut r: Vec<&ShortcutInfo> = Vec::new();
        let mut i: usize = 0;
        while i < self.shortcuts.len()
            invariant
                i <= self.shortcuts@.len(),
                r@.len() == i,
                forall|k: int| 0 <= k < i ==> *(#[trigger] r@[k]) == self.entries()[k].1,
            decreases self.shortcuts@.len() - i,
        {
            r.push(&self.shortcuts[i].1);
            i = i + 1;
        }
        r
    }

    /// Remove every shortcut.
    pub fn clear(&mut self)
        requires
            old(self).wf(),
        ensures
            final(self).wf(),
            final(self).entries() == Seq::<(ShortcutId, ShortcutInfo)>::empty(),
            final(self).next_id() == old(self).next_id(),
            final(self).active_context() == old(self).active_context(),
    {
        self.shortcuts.clear();
    }
}

impl Default for ShortcutRegistry {
    fn default() -> (r: Self)
        ensures
            r.wf(),
            r.entries() == Seq::<(ShortcutId, ShortcutInfo)>::empty(),
            r.next_id() == 1,
            r.active_context() is None,
    {
        Self::new()
    }
}


/// A match with its priority: (priority, id, action name).
pub type RankedMatch = (i32, ShortcutId, Seq<char>);

/// Selects matches of priority `p`.
pub open spec fn at_priority(p: i32) -> spec_fn(RankedMatch) -> bool {
    |t: RankedMatch| t.0 == p
}

/// `ranked` orders the candidate matches `cands` by priority, highest
/// first, keeping candidates of equal priority in the order given.
pub open spec fn ranks(cands: Seq<RankedMatch>, ranked: Seq<RankedMatch>) -> bool {
    &&& ranked.len() == cands.len()
    &&& forall|i: int, j: int| 0 <= i < j < ranked.len() ==> (#[trigger] ranked[i]).0 >= (#[trigger] ranked[j]).0
    &&& forall|p: i32| #[trigger] keep(ranked, at_priority(p)) == keep(cands, at_priority(p))
}

/// The id and action name of a match.
pub open spec fn match_view(m: ShortcutMatch) -> (ShortcutId, Seq<char>) {
    (m.id, m.action_name@)
}

/// Drop the priority of a ranked match.
pub open spec fn strip(t: RankedMatch) -> (ShortcutId, Seq<char>) {
    (t.1, t.2)
}

/// The id and action name of each match.
pub open spec fn match_views(v: Seq<ShortcutMatch>) -> Seq<(ShortcutId, Seq<char>)> {
    v.map_values(|m: ShortcutMatch| match_view(m))
}

/// The id and action name of each ranked match.
pub open spec fn strips(v: Seq<RankedMatch>) -> Seq<(ShortcutId, Seq<char>)> {
    v.map_values(|t: RankedMatch| strip(t))
}

/// Inserting a match after every match of at least its priority and before
/// every match of lower priority keeps the ranking.
proof fn lemma_ranks_insert(cands: Seq<RankedMatch>, ranked: Seq<RankedMatch>, x: RankedMatch, j: int)
    requires
        ranks(cands, ranked),
        0 <= j <= ranked.len(),
        forall|k: int| 0 <= k < j ==> (#[trigger] ranked[k]).0 >= x.0,
        forall|k: int| j <= k < ranked.len() ==> (#[trigger] ranked[k]).0 < x.0,
    ensures
        ranks(cands.push(x), ranked.insert(j, x)),
{
    let r2 = ranked.insert(j, x);
    let pre = ranked.take(j);
    let post = ranked.skip(j);
    assert(r2 =~= pre + seq![x] + post);
    assert(ranked =~= pre + post);
    assert forall|a: int, b: int| 0 <= a < b < r2.len() implies (#[trigger] r2[a]).0 >= (#[trigger] r2[b]).0 by {
        if a < j && b < j {
            assert(r2[a] == ranked[a] && r2[b] == ranked[b]);
        } else if a < j && b == j {
            assert(r2[a] == ranked[a]);
        } else if a < j {
            assert(r2[a] == ranked[a] && r2[b] == ranked[b - 1]);
        } else if a == j {
            assert(r2[b] == ranked[b - 1]);
        } else {
            assert(r2[a] == ranked[a - 1] && r2[b] == ranked[b - 1]);
        }
    }
    assert forall|p: i32| #[trigger] keep(r2, at_priority(p)) == keep(cands.push(x), at_priority(p)) by {
        let f = at_priority(p);
        lemma_keep_concat(pre + seq![x], post, f);
        lemma_keep_concat(pre, seq![x], f);
        lemma_keep_concat(pre, post, f);
        crate::seqs::lemma_keep_single(x, f);
        lemma_keep_push(cands, x, f);
        if p == x.0 {
            assert forall|k: int| 0 <= k < post.len() implies !f(#[trigger] post[k]) by {
                assert(post[k] == ranked[j + k]);
            }
            lemma_keep_none(post, f);
            assert(keep(pre, f) + seq![x] =~= (keep(pre, f) + keep(post, f)).push(x));
        } else {
            assert(keep(pre, f) + Seq::<RankedMatch>::empty() =~= keep(pre, f));
        }
    }
}

/// The first kept element is the first element satisfying `f`.
proof fn lemma_keep_first<A>(s: Seq<A>, f: spec_fn(A) -> bool) -> (k: int)
    requires
        keep(s, f).len() > 0,
    ensures
        0 <= k < s.len(),
        s[k] == keep(s, f)[0],
        f(s[k]),
        forall|j: int| 0 <= j < k ==> !f(#[trigger] s[j]),
    decreases s.len(),
{
    let rest = keep(s.drop_last(), f);
    if rest.len() > 0 {
        let k = lemma_keep_first(s.drop_last(), f);
        assert forall|j: int| 0 <= j < k implies !f(#[trigger] s[j]) by {
            assert(s[j] == s.drop_last()[j]);
        }
        k
    } else {
        assert forall|j: int| 0 <= j < s.len() - 1 implies !f(#[trigger] s[j]) by {
            assert(s[j] == s.drop_last()[j]);
            lemma_keep_contains(s.drop_last(), f, s[j]);
        }
        (s.len() - 1) as int
    }
}

impl ShortcutRegistry {
    /// Whether `scope` is active with `focused` focused.
    pub open spec fn scope_active(&self, scope: ShortcutScope, focused: Option<ElementId>) -> bool {
        match scope {
            ShortcutScope::Global => true,
            ShortcutScope::Focused(e) => focused == Some(e),
            ShortcutScope::Context(c) => self.active_context() == Some(c),
        }
    }

    /// Whether the shortcut `info` fires for `key` with `modifiers` while
    /// `focused` has focus.
    pub open spec fn fires(&self, info: ShortcutInfo, key: Key, modifiers: Modifiers, focused: Option<ElementId>) -> bool {
        &&& info.enabled
        &&& info.shortcut.key == key
        &&& modifiers_match(info.shortcut.modifiers, modifiers)
        &&& self.scope_active(info.scope, focused)
    }

    /// The shortcuts that fire, as ranked matches in registration order.
    pub open spec fn candidates(&self, key: Key, modifiers: Modifiers, focused: Option<ElementId>) -> Seq<RankedMatch> {
        keep(
            self.entries().map_values(|e: (ShortcutId, ShortcutInfo)| e.1),
            |info: ShortcutInfo| self.fires(info, key, modifiers, focused),
        ).map_values(|info: ShortcutInfo| (info.priority, info.id, info.action_name@))
    }

    /// The shortcuts that fire for `key` with `modifiers` while `focused`
    /// has focus, highest priority first; among equal priorities, earlier
    /// registrations first.
    pub fn find_matches(&self, key: Key, modifiers: &Modifiers, focused_element: Option<ElementId>) -> (r: Vec<ShortcutMatch>)
        requires
            self.wf(),
        ensures
            exists|ranked: Seq<RankedMatch>| #[trigger] ranks(self.candidates(key, *modifiers, focused_element), ranked)
                && match_views(r@) == strips(ranked),
    {
        let ghost infos = self.entries().map_values(|e: (ShortcutId, ShortcutInfo)| e.1);
        let ghost fires = |info: ShortcutInfo| self.fires(info, key, *modifiers, focused_element);
        let ghost to_t = |info: ShortcutInfo| (info.priority, info.id, info.action_name@);
        let mut prios: Vec<i32> = Vec::new();
        let mut out: Vec<ShortcutMatch> = Vec::new();
        let ghost mut ranked: Seq<RankedMatch> = Seq::empty();
        let mut i: usize = 0;
        while i < self.shortcuts.len()
            invariant
                i <= self.shortcuts@.len(),
                infos == self.entries().map_values(|e: (ShortcutId, ShortcutInfo)| e.1),
                fires == (|info: ShortcutInfo| self.fires(info, key, *modifiers, focused_element)),
                to_t == (|info: ShortcutInfo| (info.priority, info.id, info.action_name@)),
                prios@.len() == ranked.len(),
                out@.len() == ranked.len(),
                forall|k: int| 0 <= k < ranked.len() ==> (#[trigger] ranked[k]).0 == prios@[k],
                forall|k: int| 0 <= k < ranked.len() ==> strip(#[trigger] ranked[k]) == match_view(out@[k]),
                ranks(keep(infos.take(i as int), fires).map_values(to_t), ranked),
            decreases self.shortcuts@.len() - i,
        {
            let info = &self.shortcuts[i].1;
            let ghost before_c = keep(infos.take(i as int), fires).map_values(to_t);
            proof {
                assert(infos.take(i + 1) =~= infos.take(i as int).push(*info));
                lemma_keep_push(infos.take(i as int), *info, fires);
            }
            let scope_matches = match info.scope {
                ShortcutScope::Global => true,
                ShortcutScope::Focused(element_id) => match focused_element {
                    Some(f) => f == element_id,
                    None => false,
                },
                ShortcutScope::Context(ctx) => match self.active_context {
                    Some(a) => a == ctx,
                    None => false,
                },
            };
            if info.enabled && info.shortcut.matches(key, modifiers) && scope_matches {
                let p = info.priority;
                let mut j: usize = 0;
                while j < prios.len() && prios[j] >= p
                    invariant
                        j <= prios@.len(),
                        forall|k: int| 0 <= k < j ==> prios@[k] >= p,
                    decreases prios@.len() - j,
                {
                    j = j + 1;
                }
                let x = ShortcutMatch { id: info.id, action_name: info.action_name.clone() };
                let ghost xt = (p, info.id, info.action_name@);
                proof {
                    assert forall|k: int| 0 <= k < j implies (#[trigger] ranked[k]).0 >= xt.0 by {}
                    assert forall|k: int| j <= k < ranked.len() implies (#[trigger] ranked[k]).0 < xt.0 by {
                        if j < prios@.len() {
                            assert(prios@[j as int] < p);
                            assert(ranked[j as int].0 >= ranked[k].0 || k == j);
                        }
                    }
                    lemma_ranks_insert(before_c, ranked, xt, j as int);
                    assert(keep(infos.take(i as int), fires).push(*info).map_values(to_t)
                        =~= before_c.push(xt));
                }
                let ghost r_old = ranked;
                let ghost o_old = out@;
                let ghost p_old = prios@;
                prios.insert(j, p);
                out.insert(j, x);
                proof {
                    ranked = ranked.insert(j as int, xt);
                    assert forall|k: int| 0 <= k < ranked.len() implies strip(#[trigger] ranked[k]) == match_view(out@[k]) by {
                        if k < j {
                            assert(ranked[k] == r_old[k] && out@[k] == o_old[k]);
                        } else if k == j {
                        } else {
                            assert(ranked[k] == r_old[k - 1] && out@[k] == o_old[k - 1]);
                        }
                    }
                    assert forall|k: int| 0 <= k < ranked.len() implies (#[trigger] ranked[k]).0 == prios@[k] by {
                        if k < j {
                            assert(ranked[k] == r_old[k] && prios@[k] == p_old[k]);
                        } else if k == j {
                        } else {
                            assert(ranked[k] == r_old[k - 1] && prios@[k] == p_old[k - 1]);
                        }
                    }
                }
            }
            i = i + 1;
        }
        proof {
            assert(infos.take(i as int) =~= infos);
            assert(match_views(out@) =~= strips(ranked));
            let cands = self.candidates(key, *modifiers, focused_element);
            assert(fires =~= (|info: ShortcutInfo| self.fires(info, key, *modifiers, focused_element)));
            assert(cands =~= keep(infos, fires).map_values(to_t));
            assert(ranks(cands, ranked));
        }
        out
    }
}


/// Candidate `k` has the highest priority and is the earliest registered
/// among the candidates of that priority.
pub open spec fn is_best(cands: Seq<RankedMatch>, k: int) -> bool {
    &&& 0 <= k < cands.len()
    &&& forall|j: int| 0 <= j < cands.len() ==> (#[trigger] cands[j]).0 <= cands[k].0
    &&& forall|j: int| 0 <= j < k ==> (#[trigger] cands[j]).0 < cands[k].0
}

impl ShortcutRegistry {
    /// The highest-priority shortcut that fires, if any; among equal
    /// priorities the earliest registered.
    pub fn find_match(&self, key: Key, modifiers: &Modifiers, focused_element: Option<ElementId>) -> (r: Option<ShortcutMatch>)
        requires
            self.wf(),
        ensures
            r is None <==> self.candidates(key, *modifiers, focused_element).len() == 0,
            r is Some ==> exists|k: int| is_best(self.candidates(key, *modifiers, focused_element), k)
                && strip(self.candidates(key, *modifiers, focused_element)[k]) == match_view(r->0),
    {
        let mut all = self.find_matches(key, modifiers, focused_element);
        let ghost c = self.candidates(key, *modifiers, focused_element);
        let ghost rk = choose|ranked: Seq<RankedMatch>| #[trigger] ranks(self.candidates(key, *modifiers, focused_element), ranked)
            && match_views(all@) == strips(ranked);
        proof {
            assert(ranks(self.candidates(key, *modifiers, focused_element), rk)
                && match_views(all@) == strips(rk));
            assert(match_views(all@).len() == all@.len());
            assert(strips(rk).len() == rk.len());
        }
        if all.len() == 0 {
            None
        } else {
            let ghost all0 = all@;
            let first = all.remove(0);
            proof {
                assert(match_views(all0)[0] == strips(rk)[0]);
                let x = rk[0];
                let f = at_priority(x.0);
                assert(match_view(first) == strip(x));
                lemma_keep_contains(rk, f, x);
                assert(keep(rk, f) == keep(c, f));
                let kr = lemma_keep_first(rk, f);
                if kr > 0 {
                    assert(f(rk[0]));
                }
                let k = lemma_keep_first(c, f);
                assert(c[k] == x);
                assert forall|j: int| 0 <= j < c.len() implies (#[trigger] c[j]).0 <= c[k].0 by {
                    let g = at_priority(c[j].0);
                    lemma_keep_contains(c, g, c[j]);
                    assert(keep(rk, g) == keep(c, g));
                    lemma_keep_contains(rk, g, c[j]);
                    let m = choose|m: int| 0 <= m < rk.len() && rk[m] == c[j];
                    if m > 0 {
                        assert(rk[0].0 >= rk[m].0);
                    }
                }
                assert forall|j: int| 0 <= j < k implies (#[trigger] c[j]).0 < c[k].0 by {
                    assert(!f(c[j]));
                }
                assert(is_best(c, k));
            }
            Some(first)
        }
    }
}


/// The distinct elements of `s`, in order of first occurrence.
pub open spec fn firsts<A>(s: Seq<A>) -> Seq<A>
    decreases s.len(),
{
    if s.len() == 0 {
        Seq::empty()
    } else {
        let rest = firsts(s.drop_last());
        if rest.contains(s.last()) {
            rest
        } else {
            rest.push(s.last())
        }
    }
}

/// `firsts` holds exactly the elements of `s`, each once.
proof fn lemma_firsts<A>(s: Seq<A>)
    ensures
        forall|x: A| firsts(s).contains(x) <==> s.contains(x),
        firsts(s).no_duplicates(),
    decreases s.len(),
{
    if s.len() > 0 {
        lemma_firsts(s.drop_last());
        let rest = firsts(s.drop_last());
        assert forall|x: A| firsts(s).contains(x) <==> s.contains(x) by {
            if firsts(s).contains(x) {
                let k = choose|k: int| 0 <= k < firsts(s).len() && firsts(s)[k] == x;
                if k < rest.len() {
                    assert(rest[k] == x);
                    assert(rest.contains(x));
                    assert(s.drop_last().contains(x));
                    let j = choose|j: int| 0 <= j < s.drop_last().len() && s.drop_last()[j] == x;
                    assert(s[j] == x);
                } else {
                    assert(s[s.len() - 1] == x);
                }
            }
            if s.contains(x) {
                let j = choose|j: int| 0 <= j < s.len() && s[j] == x;
                if j < s.len() - 1 {
                    assert(s.drop_last()[j] == x);
                    assert(s.drop_last().contains(x));
                    assert(rest.contains(x));
                    let k = choose|k: int| 0 <= k < rest.len() && rest[k] == x;
                    assert(firsts(s)[k] == x);
                } else if !rest.contains(x) {
                    assert(firsts(s)[firsts(s).len() - 1] == x);
                }
            }
        }
    }
}

impl ShortcutRegistry {
    /// Registered shortcuts in registration order.
    pub open spec fn infos(&self) -> Seq<ShortcutInfo> {
        self.entries().map_values(|e: (ShortcutId, ShortcutInfo)| e.1)
    }

    /// Enabled shortcuts for the action `name`, in registration order.
    pub open spec fn enabled_for_action(&self, name: Seq<char>) -> Seq<ShortcutInfo> {
        keep(self.infos(), |i: ShortcutInfo| i.enabled && i.action_name@ == name)
    }

    /// The display string of the earliest registered enabled shortcut for
    /// the action `action_name`.
    pub fn get_shortcut_hint(&self, action_name: &str) -> (r: Option<String>)
        ensures
            r is Some <==> self.enabled_for_action(action_name@).len() > 0,
            r is Some ==> r->0@ == shortcut_label(self.enabled_for_action(action_name@)[0].shortcut),
    {
        let target = action_name.to_owned();
        let ghost infos = self.infos();
        let ghost f = |i: ShortcutInfo| i.enabled && i.action_name@ == action_name@;
        let mut i: usize = 0;
        while i < self.shortcuts.len()
            invariant
                i <= self.shortcuts@.len(),
                infos == self.infos(),
                target@ == action_name@,
                f == (|i: ShortcutInfo| i.enabled && i.action_name@ == action_name@),
                keep(infos.take(i as int), f) == Seq::<ShortcutInfo>::empty(),
            decreases self.shortcuts@.len() - i,
        {
            let info = &self.shortcuts[i].1;
            proof {
                assert(infos.take(i + 1) =~= infos.take(i as int).push(*info));
                lemma_keep_push(infos.take(i as int), *info, f);
            }
            if info.enabled && info.action_name == target {
                proof {
                    assert(infos =~= infos.take(i + 1) + infos.skip(i + 1));
                    lemma_keep_concat(infos.take(i + 1), infos.skip(i + 1), f);
                    assert(keep(infos.take(i + 1), f) =~= seq![*info]);
                    assert(self.enabled_for_action(action_name@) == keep(infos, f));
                }
                return Some(info.shortcut.display_string());
            }
            i = i + 1;
        }
        proof {
            assert(infos.take(i as int) =~= infos);
            assert(self.enabled_for_action(action_name@) == keep(infos, f));
        }
        None
    }
}


/// Enabled shortcuts of global scope.
pub open spec fn conflict_eligible() -> spec_fn(ShortcutInfo) -> bool {
    |i: ShortcutInfo| i.enabled && i.scope == ShortcutScope::Global
}

/// Shortcuts bound to `s`.
pub open spec fn bound_to(s: Shortcut) -> spec_fn(ShortcutInfo) -> bool {
    |i: ShortcutInfo| i.shortcut == s
}

/// The key combinations of `infos`.
pub open spec fn shortcuts_of(infos: Seq<ShortcutInfo>) -> Seq<Shortcut> {
    infos.map_values(|i: ShortcutInfo| i.shortcut)
}

/// The key combinations of `conflicts`.
pub open spec fn conflict_keys(conflicts: Seq<ShortcutConflict>) -> Seq<Shortcut> {
    conflicts.map_values(|c: ShortcutConflict| c.shortcut)
}

/// The ids of `infos`.
pub open spec fn ids_of(infos: Seq<ShortcutInfo>) -> Seq<ShortcutId> {
    infos.map_values(|i: ShortcutInfo| i.id)
}

/// The action names of `infos`.
pub open spec fn names_of(infos: Seq<ShortcutInfo>) -> Seq<Seq<char>> {
    infos.map_values(|i: ShortcutInfo| i.action_name@)
}

/// The contents of a list of strings.
pub open spec fn names_view(v: Seq<String>) -> Seq<Seq<char>> {
    v.map_values(|s: String| s@)
}

/// `c` lists, in registration order, the ids and action names of the
/// shortcuts of `infos` bound to `c.shortcut`.
pub open spec fn lists_bound(c: ShortcutConflict, infos: Seq<ShortcutInfo>) -> bool {
    &&& c.conflicting_ids@ == ids_of(keep(infos, bound_to(c.shortcut)))
    &&& names_view(c.action_names@) == names_of(keep(infos, bound_to(c.shortcut)))
}

/// Conflicts with more than one shortcut.
pub open spec fn is_conflict() -> spec_fn(ShortcutConflict) -> bool {
    |c: ShortcutConflict| c.conflicting_ids@.len() > 1
}

impl ShortcutRegistry {
    /// Enabled shortcuts of global scope, in registration order.
    pub open spec fn eligible_for_conflicts(&self) -> Seq<ShortcutInfo> {
        keep(self.infos(), conflict_eligible())
    }

    /// Key combinations bound by more than one enabled global shortcut, in
    /// order of first registration.
    pub open spec fn conflicting_shortcuts(&self) -> Seq<Shortcut> {
        let e = self.eligible_for_conflicts();
        keep(firsts(shortcuts_of(e)), |s: Shortcut| keep(e, bound_to(s)).len() > 1)
    }

    /// The conflicts among enabled global shortcuts: for each key combination
    /// bound more than once (in order of first registration), the ids and
    /// action names bound to it, in registration order.
    pub fn detect_conflicts(&self) -> (r: Vec<ShortcutConflict>)
        ensures
            r@.len() == self.conflicting_shortcuts().len(),
            forall|c: int| 0 <= c < r@.len() ==> {
                &&& (#[trigger] r@[c]).shortcut == self.conflicting_shortcuts()[c]
                &&& lists_bound(r@[c], self.eligible_for_conflicts())
            },
    {
        let ghost infos = self.infos();
        let ghost ef = conflict_eligible();
        let mut groups: Vec<ShortcutConflict> = Vec::new();
        let mut i: usize = 0;
        while i < self.shortcuts.len()
            invariant
                i <= self.shortcuts@.len(),
                infos == self.infos(),
                ef == conflict_eligible(),
                conflict_keys(groups@) == firsts(shortcuts_of(keep(infos.take(i as int), ef))),
                forall|g: int| 0 <= g < groups@.len() ==> lists_bound(#[trigger] groups@[g], keep(infos.take(i as int), ef)),
            decreases self.shortcuts@.len() - i,
        {
            let info = &self.shortcuts[i].1;
            let ghost e0 = keep(infos.take(i as int), ef);
            proof {
                assert(infos.take(i + 1) =~= infos.take(i as int).push(*info));
                lemma_keep_push(infos.take(i as int), *info, ef);
                lemma_firsts(shortcuts_of(e0));
            }
            let global = match info.scope {
                ShortcutScope::Global => true,
                _ => false,
            };
            if info.enabled && global {
                let ghost e1 = e0.push(*info);
                proof {
                    assert(shortcuts_of(e1) =~= shortcuts_of(e0).push(info.shortcut));
                    assert(shortcuts_of(e1).drop_last() =~= shortcuts_of(e0));
                }
                let mut g: usize = 0;
                while g < groups.len() && groups[g].shortcut != info.shortcut
                    invariant
                        g <= groups@.len(),
                        forall|k: int| 0 <= k < g ==> (#[trigger] groups@[k]).shortcut != info.shortcut,
                    decreases groups@.len() - g,
                {
                    g = g + 1;
                }
                let ghost before = groups@;
                if g < groups.len() {
                    proof {
                        assert(conflict_keys(before)[g as int] == info.shortcut);
                        assert(firsts(shortcuts_of(e0)).contains(info.shortcut));
                        assert(firsts(shortcuts_of(e1)) == firsts(shortcuts_of(e0)));
                    }
                    groups[g].conflicting_ids.push(info.id);
                    groups[g].action_names.push(info.action_name.clone());
                    proof {
                        assert(conflict_keys(groups@) =~= conflict_keys(before));
                        assert forall|k: int| 0 <= k < groups@.len() implies lists_bound(#[trigger] groups@[k], e1) by {
                            let sk = groups@[k].shortcut;
                            lemma_keep_push(e0, *info, bound_to(sk));
                            if k == g as int {
                                assert(keep(e1, bound_to(sk)) == keep(e0, bound_to(sk)).push(*info));
                                assert(ids_of(keep(e1, bound_to(sk))) =~= ids_of(keep(e0, bound_to(sk))).push(info.id));
                                assert(names_of(keep(e1, bound_to(sk))) =~= names_of(keep(e0, bound_to(sk))).push(info.action_name@));
                                assert(names_view(groups@[k].action_names@) =~= names_view(before[k].action_names@).push(info.action_name@));
                            } else {
                                assert(groups@[k] == before[k]);
                                lemma_firsts(shortcuts_of(e0));
                                assert(conflict_keys(before)[k] == sk);
                                assert(sk != info.shortcut);
                            }
                        }
                    }
                } else {
                    let mut ids: Vec<ShortcutId> = Vec::new();
                    ids.push(info.id);
                    let mut names: Vec<String> = Vec::new();
                    names.push(info.action_name.clone());
                    groups.push(ShortcutConflict { shortcut: info.shortcut, conflicting_ids: ids, action_names: names });
                    proof {
                        assert(!conflict_keys(before).contains(info.shortcut)) by {
                            if conflict_keys(before).contains(info.shortcut) {
                                let k = choose|k: int| 0 <= k < conflict_keys(before).len() && conflict_keys(before)[k] == info.shortcut;
                                assert(before[k].shortcut == info.shortcut);
                            }
                        }
                        assert(firsts(shortcuts_of(e1)) == firsts(shortcuts_of(e0)).push(info.shortcut));
                        assert(conflict_keys(groups@) =~= conflict_keys(before).push(info.shortcut));
                        assert forall|k: int| 0 <= k < groups@.len() implies lists_bound(#[trigger] groups@[k], e1) by {
                            let sk = groups@[k].shortcut;
                            lemma_keep_push(e0, *info, bound_to(sk));
                            if k == before.len() {
                                assert forall|m: int| 0 <= m < e0.len() implies !bound_to(sk)(#[trigger] e0[m]) by {
                                    assert(shortcuts_of(e0)[m] == e0[m].shortcut);
                                    assert(shortcuts_of(e0).contains(e0[m].shortcut));
                                }
                                lemma_keep_none(e0, bound_to(sk));
                                assert(keep(e1, bound_to(sk)) =~= seq![*info]);
                                assert(ids_of(keep(e1, bound_to(sk))) =~= seq![info.id]);
                                assert(names_of(keep(e1, bound_to(sk))) =~= seq![info.action_name@]);
                                assert(names_view(groups@[k].action_names@) =~= seq![info.action_name@]);
                            } else {
                                assert(groups@[k] == before[k]);
                                assert(conflict_keys(before)[k] == sk);
                                assert(sk != info.shortcut);
                            }
                        }
                    }
                }
            } else {
                proof {
                    assert(keep(infos.take(i + 1), ef) == e0);
                }
            }
            i = i + 1;
        }
        proof {
            assert(infos.take(i as int) =~= infos);
        }
        let ghost all = groups@;
        let ghost e = self.eligible_for_conflicts();
        let mut out: Vec<ShortcutConflict> = Vec::new();
        let ghost n = groups@.len();
        while groups.len() > 0
            invariant
                groups@.len() <= n,
                n == all.len(),
                groups@ == all.skip(n - groups@.len()),
                out@ == keep(all.take(n - groups@.len()), is_conflict()),
            decreases groups@.len(),
        {
            let ghost k = n - groups@.len();
            let ghost gv = groups@;
            let c = groups.remove(0);
            proof {
                assert(c == all[k]);
                assert(all.take(k + 1) =~= all.take(k).push(c));
                lemma_keep_push(all.take(k), c, is_conflict());
                assert(groups@ =~= all.skip(k + 1));
            }
            if c.conflicting_ids.len() > 1 {
                out.push(c);
            }
        }
        proof {
            assert(all.take(n as int) =~= all);
            let q = |s: Shortcut| keep(e, bound_to(s)).len() > 1;
            assert forall|g: int| 0 <= g < all.len() implies is_conflict()(#[trigger] all[g]) == q((|c: ShortcutConflict| c.shortcut)(all[g])) by {
                assert(lists_bound(all[g], e));
            }
            lemma_keep_map(all, |c: ShortcutConflict| c.shortcut, is_conflict(), q);
            assert(all.map_values(|c: ShortcutConflict| c.shortcut) =~= conflict_keys(all));
            assert(shortcuts_of(e) == shortcuts_of(keep(infos, ef)));
            
            lemma_keep_elements(all, is_conflict());
            assert forall|c: int| 0 <= c < out@.len() implies {
                &&& (#[trigger] out@[c]).shortcut == self.conflicting_shortcuts()[c]
                &&& lists_bound(out@[c], self.eligible_for_conflicts())
            } by {
                assert(keep(all, is_conflict()).map_values(|c: ShortcutConflict| c.shortcut)[c] == out@[c].shortcut);
                assert(all.contains(out@[c]));
                let g = choose|g: int| 0 <= g < all.len() && all[g] == out@[c];
                assert(lists_bound(all[g], e));
            }
        }
        out
    }
}


impl ShortcutRegistry {
    /// Mutable access to the shortcut registered under `id`.
    pub fn get_mut(&mut self, id: ShortcutId) -> (r: Option<&mut ShortcutInfo>)
        requires
            old(self).wf(),
        ensures
            final(self).wf(),
            r is Some <==> old(self).has(id),
            final(self).next_id() == old(self).next_id(),
            final(self).active_context() == old(self).active_context(),
            r is None ==> final(self).entries() == old(self).entries(),
            r matches Some(m) ==> {
                &&& *m == old(self).entries()[old(self).position(id)].1
                &&& final(self).entries() == old(self).entries().update(old(self).position(id), (id, *final(m)))
            },
    {
        match self.find_index(id) {
            Some(i) => {
                let entry = &mut self.shortcuts[i];
                Some(&mut entry.1)
            },
            None => None,
        }
    }
}

} // verus!

verus! {

/// Law: a newly registered global shortcut fires for its own key and
/// modifiers: it is among the candidate matches, with priority 0.
pub proof fn law_registered_global_fires(
    before: ShortcutRegistry,
    after: ShortcutRegistry,
    id: ShortcutId,
    shortcut: Shortcut,
    name: Seq<char>,
    modifiers: Modifiers,
    focused: Option<ElementId>,
)
    requires
        before.registered(after, id, shortcut, name, ShortcutScope::Global),
        modifiers_match(shortcut.modifiers, modifiers),
    ensures
        after.candidates(shortcut.key, modifiers, focused).contains((0i32, id, name)),
{
    let f = |info: ShortcutInfo| after.fires(info, shortcut.key, modifiers, focused);
    let info = after.entries().last().1;
    assert(after.infos() =~= after.infos().drop_last().push(info));
    lemma_keep_push(after.infos().drop_last(), info, f);
    let kept = keep(after.infos(), f);
    let c = after.candidates(shortcut.key, modifiers, focused);
    assert(c[c.len() - 1] == (0i32, id, name));
}

/// Law: right after a registration, looking up the returned id finds the
/// new shortcut, which no earlier registration had; every shortcut
/// registered before is still found under its id, unchanged.
pub proof fn law_register_then_get(
    before: ShortcutRegistry,
    after: ShortcutRegistry,
    id: ShortcutId,
    shortcut: Shortcut,
    name: Seq<char>,
    scope: ShortcutScope,
)
    requires
        before.wf(),
        before.registered(after, id, shortcut, name, scope),
    ensures
        !before.has(id),
        after.has(id),
        after.position(id) == after.entries().len() - 1,
        after.entries()[after.position(id)].1 == after.entries().last().1,
        forall|other: ShortcutId| #[trigger] before.has(other) ==> {
            &&& after.has(other)
            &&& after.entries()[after.position(other)] == before.entries()[before.position(other)]
        },
{
    let b = before.entries();
    let a = after.entries();
    let n = b.len() as int;
    assert forall|i: int| 0 <= i < n implies #[trigger] a[i] == b[i] by {
        assert(a.drop_last()[i] == a[i]);
    }
    assert(a[n] == a.last());
    if before.has(id) {
        let i = before.position(id);
        assert(b[i].0.0 < before.next_id());
    }
    assert(after.has(id));
    let p = after.position(id);
    if p < n {
        assert(b[p].0.0 < before.next_id());
    }
    assert forall|other: ShortcutId| #[trigger] before.has(other) implies {
        &&& after.has(other)
        &&& after.entries()[after.position(other)] == before.entries()[before.position(other)]
    } by {
        let i = before.position(other);
        assert(a[i] == b[i]);
        assert(after.has(other));
        let j = after.position(other);
        if j == n {
            assert(b[i].0.0 < before.next_id());
        } else if j != i {
            if j < i {
                assert(b[j].0.0 < b[i].0.0);
            } else {
                assert(b[i].0.0 < b[j].0.0);
            }
        }
    }
}

/// The number of registrations among `steps`: an entry `Some(id)` stands
/// for a registration (`register` or `register_full`) that returned `id`,
/// `None` for any other call.
pub open spec fn registrations(steps: Seq<Option<ShortcutId>>) -> nat
    decreases steps.len(),
{
    if steps.len() == 0 {
        0
    } else {
        registrations(steps.drop_last()) + if steps.last() is Some { 1nat } else { 0nat }
    }
}

/// Law: on a registry made by `new`, the k-th registration returns the id
/// k + 1, whatever other calls come between: ids are handed out in order
/// and never repeat.  `regs` are the registry's states, `steps` the calls
/// between them; each registration takes the next id and advances it, and
/// every other call leaves it (as their contracts state).
pub proof fn law_registration_ids_count(regs: Seq<ShortcutRegistry>, steps: Seq<Option<ShortcutId>>)
    requires
        regs.len() == steps.len() + 1,
        regs[0].next_id() == 1,
        forall|k: int| 0 <= k < steps.len() ==> (#[trigger] steps[k] matches Some(id) ==> {
            &&& id.0 == regs[k].next_id()
            &&& regs[k + 1].next_id() == regs[k].next_id() + 1
        }),
        forall|k: int| 0 <= k < steps.len() ==> (#[trigger] steps[k] is None ==> regs[k + 1].next_id() == regs[k].next_id()),
    ensures
        regs.last().next_id() == registrations(steps) + 1,
        forall|k: int| 0 <= k < steps.len() ==> (#[trigger] steps[k] matches Some(id) ==> id.0 == registrations(steps.take(k)) + 1),
    decreases steps.len(),
{
    if steps.len() > 0 {
        let n = steps.len() - 1;
        let r2 = regs.drop_last();
        let s2 = steps.drop_last();
        assert forall|k: int| 0 <= k < s2.len() implies (#[trigger] s2[k] matches Some(id) ==> {
            &&& id.0 == r2[k].next_id()
            &&& r2[k + 1].next_id() == r2[k].next_id() + 1
        }) by {
            assert(s2[k] == steps[k]);
            assert(r2[k] == regs[k] && r2[k + 1] == regs[k + 1]);
        }
        assert forall|k: int| 0 <= k < s2.len() implies (#[trigger] s2[k] is None ==> r2[k + 1].next_id() == r2[k].next_id()) by {
            assert(s2[k] == steps[k]);
            assert(r2[k] == regs[k] && r2[k + 1] == regs[k + 1]);
        }
        law_registration_ids_count(r2, s2);
        assert(r2.last() == regs[n]);
        assert(steps[n] == steps.last());
        assert(steps.take(n) =~= s2);
        assert forall|k: int| 0 <= k < steps.len() implies (#[trigger] steps[k] matches Some(id) ==> id.0 == registrations(steps.take(k)) + 1) by {
            if k < n {
                assert(s2[k] == steps[k]);
                assert(s2.take(k) =~= steps.take(k));
            }
        }
    }
}

/// Law: a key combination bound by two or more enabled global shortcuts is
/// reported as a conflict.
pub proof fn law_duplicate_binding_conflicts(registry: ShortcutRegistry, s: Shortcut)
    requires
        keep(registry.eligible_for_conflicts(), bound_to(s)).len() > 1,
    ensures
        registry.conflicting_shortcuts().contains(s),
{
    let e = registry.eligible_for_conflicts();
    let x = keep(e, bound_to(s))[0];
    lemma_keep_elements(e, bound_to(s));
    assert(e.contains(x));
    let k = choose|k: int| 0 <= k < e.len() && e[k] == x;
    assert(bound_to(s)(x));
    assert(shortcuts_of(e)[k] == s);
    assert(shortcuts_of(e).contains(s));
    lemma_firsts(shortcuts_of(e));
    assert(firsts(shortcuts_of(e)).contains(s));
    lemma_keep_contains(firsts(shortcuts_of(e)), |t: Shortcut| keep(e, bound_to(t)).len() > 1, s);
}

/// Shortcut `info` is in scope: a context-scoped shortcut while its context
/// is `context`, a focus-scoped one while its element is `focused`, a
/// global one always.
pub open spec fn in_scope(info: ShortcutInfo, context: Option<u64>, focused: Option<ElementId>) -> bool {
    &&& info.scope matches ShortcutScope::Context(c) ==> context == Some(c)
    &&& info.scope matches ShortcutScope::Focused(e) ==> focused == Some(e)
}

/// Shortcut `info`, enabled and bound to `key` with modifiers that
/// `modifiers` satisfy, is in scope for the registry's active context and
/// the focused element.
pub open spec fn answers(info: ShortcutInfo, key: Key, modifiers: Modifiers, context: Option<u64>, focused: Option<ElementId>) -> bool {
    &&& info.enabled
    &&& info.shortcut.key == key
    &&& modifiers_match(info.shortcut.modifiers, modifiers)
    &&& in_scope(info, context, focused)
}

impl ShortcutRegistry {
    /// The match `m` names a registered shortcut that answers the key press:
    /// it has the shortcut's id and action name.
    pub open spec fn answered_by(&self, key: Key, modifiers: Modifiers, focused: Option<ElementId>, m: ShortcutMatch) -> bool {
        exists|i: int| 0 <= i < self.entries().len() && {
            let info = (#[trigger] self.entries()[i]).1;
            &&& answers(info, key, modifiers, self.active_context(), focused)
            &&& info.id == m.id
            &&& info.action_name@ == m.action_name@
        }
    }
}

/// Law: the candidate matches of a key press are exactly the registered
/// shortcuts that answer it: enabled, bound to the key, and in scope (a
/// context-scoped shortcut only while its context is the active one, so
/// none while no context is active; a focus-scoped one only while its
/// element has focus).
pub proof fn law_candidates_answer_the_key(
    r: ShortcutRegistry,
    key: Key,
    modifiers: Modifiers,
    focused: Option<ElementId>,
)
    ensures
        forall|t: RankedMatch| #[trigger] r.candidates(key, modifiers, focused).contains(t) ==> exists|i: int|
            0 <= i < r.entries().len() && {
                let info = (#[trigger] r.entries()[i]).1;
                &&& answers(info, key, modifiers, r.active_context(), focused)
                &&& t == (info.priority, info.id, info.action_name@)
            },
        forall|i: int| 0 <= i < r.entries().len() && answers(#[trigger] r.entries()[i].1, key, modifiers, r.active_context(), focused)
            ==> r.candidates(key, modifiers, focused).contains(
                (r.entries()[i].1.priority, r.entries()[i].1.id, r.entries()[i].1.action_name@),
            ),
{
    let infos = r.entries().map_values(|e: (ShortcutId, ShortcutInfo)| e.1);
    let f = |info: ShortcutInfo| r.fires(info, key, modifiers, focused);
    let g = |info: ShortcutInfo| (info.priority, info.id, info.action_name@);
    let kept = keep(infos, f);
    let cands = r.candidates(key, modifiers, focused);
    assert(cands == kept.map_values(g));
    lemma_keep_elements(infos, f);
    assert forall|t: RankedMatch| #[trigger] cands.contains(t) implies exists|i: int|
        0 <= i < r.entries().len() && {
            let info = (#[trigger] r.entries()[i]).1;
            &&& answers(info, key, modifiers, r.active_context(), focused)
            &&& t == (info.priority, info.id, info.action_name@)
        } by {
        let w = choose|w: int| 0 <= w < cands.len() && cands[w] == t;
        let info = kept[w];
        assert(f(info) && infos.contains(info));
        let i = choose|i: int| 0 <= i < infos.len() && infos[i] == info;
        assert(r.entries()[i].1 == info);
    }
    assert forall|i: int| 0 <= i < r.entries().len() && answers(#[trigger] r.entries()[i].1, key, modifiers, r.active_context(), focused)
        implies cands.contains((r.entries()[i].1.priority, r.entries()[i].1.id, r.entries()[i].1.action_name@)) by {
        let info = r.entries()[i].1;
        assert(infos[i] == info);
        assert(f(info));
        lemma_keep_contains(infos, f, info);
        let w = choose|w: int| 0 <= w < kept.len() && kept[w] == info;
        assert(cands[w] == g(info));
    }
}

/// Law: every match that `find_matches` reports is a registered shortcut
/// that answers the key press (enabled, bound to the key, in scope: in
/// particular no context-scoped shortcut while its context is not the
/// active one).  `matches` is any result that `find_matches` may return.
pub proof fn law_find_matches_answer_the_key(
    r: ShortcutRegistry,
    key: Key,
    modifiers: Modifiers,
    focused: Option<ElementId>,
    matches: Seq<ShortcutMatch>,
)
    requires
        exists|ranked: Seq<RankedMatch>| #[trigger] ranks(r.candidates(key, modifiers, focused), ranked)
            && match_views(matches) == strips(ranked),
    ensures
        forall|j: int| 0 <= j < matches.len() ==> r.answered_by(key, modifiers, focused, #[trigger] matches[j]),
{
    law_candidates_answer_the_key(r, key, modifiers, focused);
    let cands = r.candidates(key, modifiers, focused);
    let ranked = choose|ranked: Seq<RankedMatch>| #[trigger] ranks(cands, ranked) && match_views(matches) == strips(ranked);
    assert forall|j: int| 0 <= j < matches.len() implies r.answered_by(key, modifiers, focused, #[trigger] matches[j]) by {
        assert(match_views(matches).len() == matches.len());
        assert(strips(ranked).len() == ranked.len());
        assert(match_views(matches)[j] == strips(ranked)[j]);
        let x = ranked[j];
        assert(match_views(matches)[j] == match_view(matches[j]));
        assert(strips(ranked)[j] == strip(x));
        let p = x.0;
        assert(ranked.contains(x)) by { assert(ranked[j] == x); }
        lemma_keep_contains(ranked, at_priority(p), x);
        assert(keep(ranked, at_priority(p)) == keep(cands, at_priority(p)));
        lemma_keep_contains(cands, at_priority(p), x);
        assert(cands.contains(x));
        let i = choose|i: int| 0 <= i < r.entries().len() && {
            let info = (#[trigger] r.entries()[i]).1;
            &&& answers(info, key, modifiers, r.active_context(), focused)
            &&& x == (info.priority, info.id, info.action_name@)
        };
        assert(r.entries()[i].1.id == matches[j].id);
    }
}

/// Law: the match that `find_match` reports, if any, is a registered
/// shortcut that answers the key press, with the highest priority among
/// those that answer it; there is one exactly when some registered shortcut
/// answers it.  `found` is any result that
/// `find_match` may return.
pub proof fn law_find_match_answers_the_key(
    r: ShortcutRegistry,
    key: Key,
    modifiers: Modifiers,
    focused: Option<ElementId>,
    found: Option<ShortcutMatch>,
)
    requires
        found is None <==> r.candidates(key, modifiers, focused).len() == 0,
        found is Some ==> exists|k: int| is_best(r.candidates(key, modifiers, focused), k)
            && strip(r.candidates(key, modifiers, focused)[k]) == match_view(found->0),
    ensures
        found is Some <==> exists|i: int| 0 <= i < r.entries().len()
            && answers(#[trigger] r.entries()[i].1, key, modifiers, r.active_context(), focused),
        found matches Some(m) ==> r.answered_by(key, modifiers, focused, m),
        found matches Some(m) ==> exists|i: int| 0 <= i < r.entries().len() && {
            let info = (#[trigger] r.entries()[i]).1;
            &&& answers(info, key, modifiers, r.active_context(), focused)
            &&& info.id == m.id
            &&& forall|j: int| 0 <= j < r.entries().len()
                && answers(#[trigger] r.entries()[j].1, key, modifiers, r.active_context(), focused)
                ==> r.entries()[j].1.priority <= info.priority
        },
{
    law_candidates_answer_the_key(r, key, modifiers, focused);
    let cands = r.candidates(key, modifiers, focused);
    if found is Some {
        let k = choose|k: int| is_best(cands, k) && strip(cands[k]) == match_view(found->0);
        assert(cands.contains(cands[k]));
        let i = choose|i: int| 0 <= i < r.entries().len() && {
            let info = (#[trigger] r.entries()[i]).1;
            &&& answers(info, key, modifiers, r.active_context(), focused)
            &&& cands[k] == (info.priority, info.id, info.action_name@)
        };
        assert forall|j: int| 0 <= j < r.entries().len()
            && answers(#[trigger] r.entries()[j].1, key, modifiers, r.active_context(), focused)
            implies r.entries()[j].1.priority <= r.entries()[i].1.priority by {
            let inf = r.entries()[j].1;
            assert(cands.contains((inf.priority, inf.id, inf.action_name@)));
            let w = choose|w: int| 0 <= w < cands.len() && cands[w] == (inf.priority, inf.id, inf.action_name@);
            assert(cands[w].0 <= cands[k].0);
        }
    }
    if exists|i: int| 0 <= i < r.entries().len() && answers(#[trigger] r.entries()[i].1, key, modifiers, r.active_context(), focused) {
        let i = choose|i: int| 0 <= i < r.entries().len() && answers(#[trigger] r.entries()[i].1, key, modifiers, r.active_context(), focused);
        let info = r.entries()[i].1;
        assert(cands.contains((info.priority, info.id, info.action_name@)));
    }
    if cands.len() > 0 {
        assert(cands.contains(cands[0]));
    }
}

} // verus!
