//! Standard macOS shortcuts and their action names.

use vstd::prelude::*;
use crate::interaction::shortcuts::{Shortcut, ShortcutModifiers, ShortcutRegistry, ShortcutScope};
use crate::layer::Key;

verus! {

pub const QUIT: &'static str = "quit";
pub const CLOSE_WINDOW: &'static str = "close_window";
pub const MINIMIZE: &'static str = "minimize";
pub const COPY: &'static str = "copy";
pub const CUT: &'static str = "cut";
pub const PASTE: &'static str = "paste";
pub const UNDO: &'static str = "undo";
pub const REDO: &'static str = "redo";
pub const SELECT_ALL: &'static str = "select_all";
pub const FIND: &'static str = "find";
pub const FIND_NEXT: &'static str = "find_next";
pub const FIND_PREVIOUS: &'static str = "find_previous";
pub const SAVE: &'static str = "save";
pub const SAVE_AS: &'static str = "save_as";
pub const OPEN: &'static str = "open";
pub const NEW: &'static str = "new";
pub const PRINT: &'static str = "print";
pub const PREFERENCES: &'static str = "preferences";
pub const ZOOM_IN: &'static str = "zoom_in";
pub const ZOOM_OUT: &'static str = "zoom_out";
pub const ZOOM_RESET: &'static str = "zoom_reset";

/// Number of standard shortcuts.
pub const STANDARD_COUNT: usize = 21;

/// Command + `key`.
pub open spec fn cmd_key(key: Key) -> Shortcut {
    Shortcut { key, modifiers: ShortcutModifiers { shift: false, ctrl: false, alt: false, cmd: true } }
}

/// Command + shift + `key`.
pub open spec fn cmd_shift_key(key: Key) -> Shortcut {
    Shortcut { key, modifiers: ShortcutModifiers { shift: true, ctrl: false, alt: false, cmd: true } }
}

/// The `k`-th standard shortcut and its action name, in registration order.
pub open spec fn standard_binding(k: int) -> (Shortcut, &'static str) {
    if k == 0 { (cmd_key(Key::Q), QUIT) }
    else if k == 1 { (cmd_key(Key::W), CLOSE_WINDOW) }
    else if k == 2 { (cmd_key(Key::M), MINIMIZE) }
    else if k == 3 { (cmd_key(Key::C), COPY) }
    else if k == 4 { (cmd_key(Key::X), CUT) }
    else if k == 5 { (cmd_key(Key::V), PASTE) }
    else if k == 6 { (cmd_key(Key::Z), UNDO) }
    else if k == 7 { (cmd_shift_key(Key::Z), REDO) }
    else if k == 8 { (cmd_key(Key::A), SELECT_ALL) }
    else if k == 9 { (cmd_key(Key::F), FIND) }
    else if k == 10 { (cmd_key(Key::G), FIND_NEXT) }
    else if k == 11 { (cmd_shift_key(Key::G), FIND_PREVIOUS) }
    else if k == 12 { (cmd_key(Key::S), SAVE) }
    else if k == 13 { (cmd_shift_key(Key::S), SAVE_AS) }
    else if k == 14 { (cmd_key(Key::O), OPEN) }
    else if k == 15 { (cmd_key(Key::N), NEW) }
    else if k == 16 { (cmd_key(Key::P), PRINT) }
    else if k == 17 { (cmd_key(Key::Comma), PREFERENCES) }
    else if k == 18 { (cmd_key(Key::Equal), ZOOM_IN) }
    else if k == 19 { (cmd_key(Key::Minus), ZOOM_OUT) }
    else { (cmd_key(Key::Key0), ZOOM_RESET) }
}

fn binding(k: usize) -> (r: (Shortcut, &'static str))
    requires
        k < STANDARD_COUNT,
    ensures
        r == standard_binding(k as int),
{
    if k == 0 { (Shortcut::cmd(Key::Q), QUIT) }
    else if k == 1 { (Shortcut::cmd(Key::W), CLOSE_WINDOW) }
    else if k == 2 { (Shortcut::cmd(Key::M), MINIMIZE) }
    else if k == 3 { (Shortcut::cmd(Key::C), COPY) }
    else if k == 4 { (Shortcut::cmd(Key::X), CUT) }
    else if k == 5 { (Shortcut::cmd(Key::V), PASTE) }
    else if k == 6 { (Shortcut::cmd(Key::Z), UNDO) }
    else if k == 7 { (Shortcut::cmd_shift(Key::Z), REDO) }
    else if k == 8 { (Shortcut::cmd(Key::A), SELECT_ALL) }
    else if k == 9 { (Shortcut::cmd(Key::F), FIND) }
    else if k == 10 { (Shortcut::cmd(Key::G), FIND_NEXT) }
    else if k == 11 { (Shortcut::cmd_shift(Key::G), FIND_PREVIOUS) }
    else if k == 12 { (Shortcut::cmd(Key::S), SAVE) }
    else if k == 13 { (Shortcut::cmd_shift(Key::S), SAVE_AS) }
    else if k == 14 { (Shortcut::cmd(Key::O), OPEN) }
    else if k == 15 { (Shortcut::cmd(Key::N), NEW) }
    else if k == 16 { (Shortcut::cmd(Key::P), PRINT) }
    else if k == 17 { (Shortcut::cmd(Key::Comma), PREFERENCES) }
    else if k == 18 { (Shortcut::cmd(Key::Equal), ZOOM_IN) }
    else if k == 19 { (Shortcut::cmd(Key::Minus), ZOOM_OUT) }
    else { (Shortcut::cmd(Key::Key0), ZOOM_RESET) }
}

/// Register the standard macOS shortcuts, all global, in the order of
/// [`standard_binding`].
pub fn register_standard_shortcuts(registry: &mut ShortcutRegistry)
    requires
        old(registry).wf(),
        old(registry).next_id() + STANDARD_COUNT <= u64::MAX,
    ensures
        final(registry).wf(),
        final(registry).next_id() == old(registry).next_id() + STANDARD_COUNT,
        final(registry).active_context() == old(registry).active_context(),
        final(registry).entries().len() == old(registry).entries().len() + STANDARD_COUNT,
        final(registry).entries().take(old(registry).entries().len() as int) == old(registry).entries(),
        forall|k: int| 0 <= k < STANDARD_COUNT ==> {
            let e = #[trigger] final(registry).entries()[old(registry).entries().len() + k];
            &&& e.0.0 == old(registry).next_id() + k
            &&& e.1.id == e.0
            &&& e.1.shortcut == standard_binding(k).0
            &&& e.1.action_name@ == standard_binding(k).1@
            &&& e.1.scope == ShortcutScope::Global
            &&& e.1.priority == 0
            &&& e.1.enabled
            &&& e.1.description is None
        },
{
    let ghost n0 = old(registry).entries().len();
    let mut k: usize = 0;
    while k < STANDARD_COUNT
        invariant
            k <= STANDARD_COUNT,
            registry.wf(),
            n0 == old(registry).entries().len(),
            registry.next_id() == old(registry).next_id() + k,
            old(registry).next_id() + STANDARD_COUNT <= u64::MAX,
            registry.active_context() == old(registry).active_context(),
            registry.entries().len() == n0 + k,
            registry.entries().take(n0 as int) == old(registry).entries(),
            forall|j: int| 0 <= j < k ==> {
                let e = #[trigger] registry.entries()[n0 + j];
                &&& e.0.0 == old(registry).next_id() + j
                &&& e.1.id == e.0
                &&& e.1.shortcut == standard_binding(j).0
                &&& e.1.action_name@ == standard_binding(j).1@
                &&& e.1.scope == ShortcutScope::Global
                &&& e.1.priority == 0
                &&& e.1.enabled
                &&& e.1.description is None
            },
        decreases STANDARD_COUNT - k,
    {
        let (shortcut, name) = binding(k);
        let ghost before = registry.entries();
        registry.register(shortcut, name, ShortcutScope::Global);
        proof {
            assert(registry.entries().take(n0 as int) =~= before.take(n0 as int));
            assert forall|j: int| 0 <= j < k + 1 implies {
                let e = #[trigger] registry.entries()[n0 + j];
                &&& e.0.0 == old(registry).next_id() + j
                &&& e.1.id == e.0
                &&& e.1.shortcut == standard_binding(j).0
                &&& e.1.action_name@ == standard_binding(j).1@
                &&& e.1.scope == ShortcutScope::Global
                &&& e.1.priority == 0
                &&& e.1.enabled
                &&& e.1.description is None
            } by {
                if j < k {
                    assert(registry.entries()[n0 + j] == before[n0 + j]);
                }
            }
        }
        k = k + 1;
    }
}

} // verus!
