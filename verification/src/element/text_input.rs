//! Single-line text editing: the text, a cursor counted in characters, and
//! an optional selection anchored where it started.

use vstd::prelude::*;
use vstd::string::StrSliceExecFns;
use crate::layer::{Key, Modifiers};
use crate::text::push_char;

verus! {

/// State of a text input.
#[derive(Debug, Clone)]
pub struct TextInputState {
    /// The text
    pub text: String,
    /// Cursor position, in characters from the start
    pub cursor: usize,
    /// Where the selection started, if one is being made
    pub selection_start: Option<usize>,
    /// Whether the cursor is drawn (for blinking)
    pub cursor_visible: bool,
    /// Frame counter for cursor blinking
    pub blink_counter: u32,
}

/// The selection of `s` as an ordered pair of positions.
pub open spec fn sel_range(s: TextInputState) -> Option<(usize, usize)> {
    match s.selection_start {
        Some(start) => if start <= s.cursor {
            Some((start, s.cursor))
        } else {
            Some((s.cursor, start))
        },
        None => None,
    }
}

/// The start of the selection of `s` (meaningful when there is one).
pub open spec fn sel_lo(s: TextInputState) -> usize {
    match sel_range(s) {
        Some(r) => r.0,
        None => s.cursor,
    }
}

/// The end of the selection of `s` (meaningful when there is one).
pub open spec fn sel_hi(s: TextInputState) -> usize {
    match sel_range(s) {
        Some(r) => r.1,
        None => s.cursor,
    }
}

/// `t` with the characters from `a` to `b` replaced by `ins`.
pub open spec fn spliced(t: Seq<char>, a: int, b: int, ins: Seq<char>) -> Seq<char> {
    t.subrange(0, a) + ins + t.subrange(b, t.len() as int)
}

/// `after` differs from `before` only in its text, cursor and selection.
pub open spec fn same_blink(before: TextInputState, after: TextInputState) -> bool {
    after.cursor_visible == before.cursor_visible && after.blink_counter == before.blink_counter
}

/// `after` is `before` with its selection deleted, if it had one.
pub open spec fn selection_deleted(before: TextInputState, after: TextInputState) -> bool {
    match sel_range(before) {
        Some((a, b)) => {
            &&& after.text@ == spliced(before.text@, a as int, b as int, Seq::empty())
            &&& after.cursor == a
            &&& after.selection_start is None
        },
        None => {
            &&& after.text@ == before.text@
            &&& after.cursor == before.cursor
            &&& after.selection_start == before.selection_start
        },
    }
}

/// `after` has the text, cursor and selection of `before`.
pub open spec fn untouched(before: TextInputState, after: TextInputState) -> bool {
    &&& after.text@ == before.text@
    &&& after.cursor == before.cursor
    &&& after.selection_start == before.selection_start
}

/// `after` is `before` after Backspace: the selection is deleted if there
/// is one, else the character before the cursor, which moves back one;
/// at the start of the text nothing changes.
pub open spec fn backspaced(before: TextInputState, after: TextInputState) -> bool {
    if sel_range(before) is Some {
        selection_deleted(before, after)
    } else if before.cursor > 0 {
        &&& after.text@ == spliced(before.text@, before.cursor - 1, before.cursor as int, Seq::empty())
        &&& after.cursor == before.cursor - 1
        &&& after.selection_start is None
    } else {
        untouched(before, after)
    }
}

/// `after` is `before` after Delete: the selection is deleted if there is
/// one, else the character at the cursor, which stays; at the end of the
/// text nothing changes.
pub open spec fn deleted_forward(before: TextInputState, after: TextInputState) -> bool {
    if sel_range(before) is Some {
        selection_deleted(before, after)
    } else if before.cursor < before.text@.len() {
        &&& after.text@ == spliced(before.text@, before.cursor as int, before.cursor + 1, Seq::empty())
        &&& after.cursor == before.cursor
        &&& after.selection_start is None
    } else {
        untouched(before, after)
    }
}

/// `after` is `before` with the cursor moved one character left: without
/// `extend` a selection collapses to its start; with it, the selection
/// grows from where the cursor was.
pub open spec fn moved_left(before: TextInputState, after: TextInputState, extend: bool) -> bool {
    &&& after.text@ == before.text@
    &&& if !extend && sel_range(before) is Some {
        &&& after.cursor == sel_lo(before)
        &&& after.selection_start is None
    } else if !extend {
        &&& after.cursor == (if before.cursor > 0 { before.cursor - 1 } else { 0 })
        &&& after.selection_start is None
    } else {
        &&& after.cursor == (if before.cursor > 0 { before.cursor - 1 } else { 0 })
        &&& after.selection_start == (if before.cursor > 0 && before.selection_start is None {
            Some(before.cursor)
        } else {
            before.selection_start
        })
    }
}

/// `after` is `before` with the cursor moved one character right: without
/// `extend` a selection collapses to its end; with it, the selection grows
/// from where the cursor was.
pub open spec fn moved_right(before: TextInputState, after: TextInputState, extend: bool) -> bool {
    &&& after.text@ == before.text@
    &&& if !extend && sel_range(before) is Some {
        &&& after.cursor == sel_hi(before)
        &&& after.selection_start is None
    } else if !extend {
        &&& after.cursor == (if before.cursor < before.text@.len() { before.cursor + 1 } else { before.cursor as int })
        &&& after.selection_start is None
    } else {
        &&& after.cursor == (if before.cursor < before.text@.len() { before.cursor + 1 } else { before.cursor as int })
        &&& after.selection_start == (if before.cursor < before.text@.len() && before.selection_start is None {
            Some(before.cursor)
        } else {
            before.selection_start
        })
    }
}

/// The selection after a jump of the cursor: dropped without `extend`,
/// else anchored where the cursor was unless it already was.
pub open spec fn jump_selection(before: TextInputState, extend: bool) -> Option<usize> {
    if !extend {
        None
    } else if before.selection_start is None {
        Some(before.cursor)
    } else {
        before.selection_start
    }
}

/// `after` is `before` with the cursor at the start of the text.
pub open spec fn moved_to_start(before: TextInputState, after: TextInputState, extend: bool) -> bool {
    &&& after.text@ == before.text@
    &&& after.cursor == 0
    &&& after.selection_start == jump_selection(before, extend)
}

/// `after` is `before` with the cursor at the end of the text.
pub open spec fn moved_to_end(before: TextInputState, after: TextInputState, extend: bool) -> bool {
    &&& after.text@ == before.text@
    &&& after.cursor == before.text@.len()
    &&& after.selection_start == jump_selection(before, extend)
}

/// `after` is `before` with the whole text selected.
pub open spec fn selected_all(before: TextInputState, after: TextInputState) -> bool {
    &&& after.text@ == before.text@
    &&& after.selection_start == Some(0usize)
    &&& after.cursor == before.text@.len()
}

impl Default for TextInputState {
    fn default() -> (s: Self)
        ensures
            s.text@ == Seq::<char>::empty(),
            s.cursor == 0,
            s.selection_start is None,
            s.cursor_visible,
            s.blink_counter == 0,
    {
        TextInputState { text: String::new(), cursor: 0, selection_start: None, cursor_visible: true, blink_counter: 0 }
    }
}

impl TextInputState {
    /// The state's invariant: cursor and selection start lie within the text.
    pub open spec fn wf(&self) -> bool {
        &&& self.cursor <= self.text@.len()
        &&& self.selection_start matches Some(s) ==> s <= self.text@.len()
    }

    /// State holding `text`, with the cursor at its end.
    pub fn with_text(text: &str) -> (s: Self)
        ensures
            s.wf(),
            s.text@ == text@,
            s.cursor == text@.len(),
            s.selection_start is None,
            s.cursor_visible,
            s.blink_counter == 0,
    {
        let cursor = text.unicode_len();
        TextInputState { text: text.to_owned(), cursor, ..Default::default() }
    }

    /// The selection as (start, end) with start <= end.
    pub fn selection_range(&self) -> (r: Option<(usize, usize)>)
        ensures
            r == sel_range(*self),
    {
        match self.selection_start {
            Some(start) => if start <= self.cursor {
                Some((start, self.cursor))
            } else {
                Some((self.cursor, start))
            },
            None => None,
        }
    }

    /// The selected text, if any.
    pub fn selected_text(&self) -> (r: Option<&str>)
        requires
            self.wf(),
        ensures
            r is Some <==> sel_range(*self) is Some,
            r matches Some(t) ==> t@ == self.text@.subrange(sel_lo(*self) as int, sel_hi(*self) as int),
    {
        match self.selection_range() {
            Some((start, end)) => Some(self.text.as_str().substring_char(start, end)),
            None => None,
        }
    }

    /// Delete the selection, if any, leaving the cursor where it began;
    /// returns the deleted text.
    pub fn delete_selection(&mut self) -> (r: Option<String>)
        requires
            old(self).wf(),
        ensures
            final(self).wf(),
            selection_deleted(*old(self), *final(self)),
            same_blink(*old(self), *final(self)),
            sel_range(*old(self)) is None ==> *final(self) == *old(self),
            r is Some <==> sel_range(*old(self)) is Some,
            r matches Some(t) ==> t@ == old(self).text@.subrange(
                sel_lo(*old(self)) as int,
                sel_hi(*old(self)) as int,
            ),
    {
        match self.selection_range() {
            Some((start, end)) => {
                let n = self.text.as_str().unicode_len();
                let deleted = self.text.as_str().substring_char(start, end).to_owned();
                let mut rest = self.text.as_str().substring_char(0, start).to_owned();
                rest.append(self.text.as_str().substring_char(end, n));
                self.text = rest;
                self.cursor = start;
                self.selection_start = None;
                proof {
                    assert(self.text@ =~= spliced(old(self).text@, start as int, end as int, Seq::empty()));
                }
                Some(deleted)
            },
            None => None,
        }
    }

    /// Insert `s` at the cursor, replacing the selection if there is one;
    /// the cursor ends after the inserted text.
    pub fn insert(&mut self, s: &str)
        requires
            old(self).wf(),
            old(self).text@.len() + s@.len() <= usize::MAX,
        ensures
            final(self).wf(),
            exists|mid: TextInputState| {
                &&& #[trigger] selection_deleted(*old(self), mid)
                &&& final(self).text@ == spliced(mid.text@, mid.cursor as int, mid.cursor as int, s@)
                &&& final(self).cursor == mid.cursor + s@.len()
                &&& final(self).selection_start is None
            },
            same_blink(*old(self), *final(self)),
    {
        self.delete_selection();
        let ghost mid = *self;
        let n = self.text.as_str().unicode_len();
        let c = self.cursor;
        let mut t = self.text.as_str().substring_char(0, c).to_owned();
        t.append(s);
        t.append(self.text.as_str().substring_char(c, n));
        let added = s.unicode_len();
        self.text = t;
        self.cursor = c + added;
        self.selection_start = None;
        proof {
            assert(self.text@ =~= spliced(mid.text@, c as int, c as int, s@));
            assert(selection_deleted(*old(self), mid));
        }
    }

    /// Delete the selection if there is one, else the character before the
    /// cursor, if any.
    pub fn backspace(&mut self)
        requires
            old(self).wf(),
        ensures
            final(self).wf(),
            same_blink(*old(self), *final(self)),
            backspaced(*old(self), *final(self)),
            sel_range(*old(self)) is None && old(self).cursor == 0 ==> *final(self) == *old(self),
    {
        if self.delete_selection().is_some() {
            return;
        }
        if self.cursor > 0 {
            let prev = self.cursor - 1;
            self.remove_char(prev);
            self.cursor = prev;
        }
    }

    /// Delete the selection if there is one, else the character at the
    /// cursor, if any.
    pub fn delete(&mut self)
        requires
            old(self).wf(),
        ensures
            final(self).wf(),
            same_blink(*old(self), *final(self)),
            deleted_forward(*old(self), *final(self)),
            sel_range(*old(self)) is None && old(self).cursor == old(self).text@.len() ==> *final(self) == *old(self),
    {
        if self.delete_selection().is_some() {
            return;
        }
        let n = self.text.as_str().unicode_len();
        if self.cursor < n {
            let c = self.cursor;
            self.remove_char(c);
        }
    }

    /// Remove the character at position `i`.
    fn remove_char(&mut self, i: usize)
        requires
            (i as int) < old(self).text@.len(),
        ensures
            final(self).text@ == spliced(old(self).text@, i as int, i + 1, Seq::empty()),
            final(self).cursor == old(self).cursor,
            final(self).selection_start == old(self).selection_start,
            same_blink(*old(self), *final(self)),
    {
        let n = self.text.as_str().unicode_len();
        let mut t = self.text.as_str().substring_char(0, i).to_owned();
        t.append(self.text.as_str().substring_char(i + 1, n));
        self.text = t;
        assert(self.text@ =~= spliced(old(self).text@, i as int, i + 1, Seq::empty()));
    }

    /// Move the cursor one character left.  Without `extend_selection` a
    /// selection collapses to its start; with it, the selection grows from
    /// where the cursor was.
    pub fn move_left(&mut self, extend_selection: bool)
        requires
            old(self).wf(),
        ensures
            final(self).wf(),
            final(self).text == old(self).text,
            same_blink(*old(self), *final(self)),
            moved_left(*old(self), *final(self), extend_selection),
    {
        if !extend_selection {
            if let Some((start, _)) = self.selection_range() {
                self.cursor = start;
                self.selection_start = None;
                return;
            }
        }
        if self.cursor > 0 {
            if extend_selection && self.selection_start.is_none() {
                self.selection_start = Some(self.cursor);
            }
            self.cursor = self.cursor - 1;
            if !extend_selection {
                self.selection_start = None;
            }
        }
    }

    /// Move the cursor one character right.  Without `extend_selection` a
    /// selection collapses to its end; with it, the selection grows from
    /// where the cursor was.
    pub fn move_right(&mut self, extend_selection: bool)
        requires
            old(self).wf(),
        ensures
            final(self).wf(),
            final(self).text == old(self).text,
            same_blink(*old(self), *final(self)),
            moved_right(*old(self), *final(self), extend_selection),
    {
        if !extend_selection {
            if let Some((_, end)) = self.selection_range() {
                self.cursor = end;
                self.selection_start = None;
                return;
            }
        }
        let n = self.text.as_str().unicode_len();
        if self.cursor < n {
            if extend_selection && self.selection_start.is_none() {
                self.selection_start = Some(self.cursor);
            }
            self.cursor = self.cursor + 1;
            if !extend_selection {
                self.selection_start = None;
            }
        }
    }

    /// Move the cursor to the start, extending the selection or dropping it.
    pub fn move_to_start(&mut self, extend_selection: bool)
        requires
            old(self).wf(),
        ensures
            final(self).wf(),
            final(self).text == old(self).text,
            same_blink(*old(self), *final(self)),
            moved_to_start(*old(self), *final(self), extend_selection),
    {
        if extend_selection && self.selection_start.is_none() {
            self.selection_start = Some(self.cursor);
        }
        self.cursor = 0;
        if !extend_selection {
            self.selection_start = None;
        }
    }

    /// Move the cursor to the end, extending the selection or dropping it.
    pub fn move_to_end(&mut self, extend_selection: bool)
        requires
            old(self).wf(),
        ensures
            final(self).wf(),
            final(self).text == old(self).text,
            same_blink(*old(self), *final(self)),
            moved_to_end(*old(self), *final(self), extend_selection),
    {
        if extend_selection && self.selection_start.is_none() {
            self.selection_start = Some(self.cursor);
        }
        self.cursor = self.text.as_str().unicode_len();
        if !extend_selection {
            self.selection_start = None;
        }
    }

    /// Select the whole text.
    pub fn select_all(&mut self)
        ensures
            final(self).wf(),
            final(self).text == old(self).text,
            same_blink(*old(self), *final(self)),
            selected_all(*old(self), *final(self)),
    {
        self.selection_start = Some(0);
        self.cursor = self.text.as_str().unicode_len();
    }

    /// Drop the selection without moving the cursor.
    pub fn clear_selection(&mut self)
        ensures
            final(self).text == old(self).text,
            final(self).cursor == old(self).cursor,
            final(self).selection_start is None,
            same_blink(*old(self), *final(self)),
            old(self).wf() ==> final(self).wf(),
    {
        self.selection_start = None;
    }
}

/// What a key press did to a text input.
#[derive(Debug, Clone, Copy, PartialEq, Eq, Structural)]
pub struct KeyOutcome {
    /// Whether the text changed (the change handler runs)
    pub text_changed: bool,
    /// Whether the text was submitted (the submit handler runs)
    pub submitted: bool,
}

/// The keys that delete, move or submit rather than type.
pub open spec fn is_command_key(key: Key) -> bool {
    ||| key == Key::Backspace
    ||| key == Key::Delete
    ||| key == Key::Left
    ||| key == Key::Right
    ||| key == Key::Home
    ||| key == Key::End
    ||| key == Key::Return
}

/// The edit that key `key` (with `modifiers`, typing `character`) makes on
/// a text input; `None` for keys that only move or select.
pub open spec fn key_edits(key: Key, modifiers: Modifiers, character: Option<char>) -> bool {
    match key {
        Key::Backspace | Key::Delete => true,
        Key::Left | Key::Right | Key::Home | Key::End | Key::Return => false,
        Key::A if modifiers.cmd => false,
        _ => character is Some && !modifiers.cmd && !modifiers.ctrl,
    }
}

/// Apply key `key` to an enabled text input: the cursor blink restarts;
/// Backspace and Delete delete, the arrow keys and Home and End move (Shift
/// extends the selection), Cmd+A selects all, Return submits, and any other
/// key that types a character without Cmd or Ctrl inserts it.
pub fn handle_key_input(state: &mut TextInputState, key: Key, modifiers: Modifiers, character: Option<char>) -> (r: KeyOutcome)
    requires
        old(state).wf(),
        old(state).text@.len() + 1 <= usize::MAX,
    ensures
        final(state).wf(),
        final(state).cursor_visible,
        final(state).blink_counter == 0,
        r.text_changed == key_edits(key, modifiers, character),
        r.submitted == (key == Key::Return),
        key == Key::Backspace ==> backspaced(*old(state), *final(state)),
        key == Key::Delete ==> deleted_forward(*old(state), *final(state)),
        key == Key::Left ==> moved_left(*old(state), *final(state), modifiers.shift),
        key == Key::Right ==> moved_right(*old(state), *final(state), modifiers.shift),
        key == Key::Home ==> moved_to_start(*old(state), *final(state), modifiers.shift),
        key == Key::End ==> moved_to_end(*old(state), *final(state), modifiers.shift),
        key == Key::A && modifiers.cmd ==> selected_all(*old(state), *final(state)),
        !key_edits(key, modifiers, character) && key != Key::Left && key != Key::Right && key != Key::Home
            && key != Key::End && !(key == Key::A && modifiers.cmd) ==> untouched(*old(state), *final(state)),
        !is_command_key(key) && character is Some && !modifiers.cmd && !modifiers.ctrl ==> r.text_changed && exists|mid: TextInputState| {
            &&& #[trigger] selection_deleted(*old(state), mid)
            &&& final(state).text@ == spliced(mid.text@, mid.cursor as int, mid.cursor as int, seq![character->0])
            &&& final(state).cursor == mid.cursor + 1
            &&& final(state).selection_start is None
        },
        !is_command_key(key) && (modifiers.cmd || modifiers.ctrl) ==> !r.text_changed,
        key_edits(key, modifiers, character) && key != Key::Backspace && key != Key::Delete ==> exists|mid: TextInputState| {
            &&& #[trigger] selection_deleted(*old(state), mid)
            &&& final(state).text@ == spliced(mid.text@, mid.cursor as int, mid.cursor as int, seq![character->0])
            &&& final(state).cursor == mid.cursor + 1
            &&& final(state).selection_start is None
        },
{
    state.cursor_visible = true;
    state.blink_counter = 0;
    let mut text_changed = false;
    match key {
        Key::Backspace => {
            state.backspace();
            text_changed = true;
        },
        Key::Delete => {
            state.delete();
            text_changed = true;
        },
        Key::Left => {
            state.move_left(modifiers.shift);
        },
        Key::Right => {
            state.move_right(modifiers.shift);
        },
        Key::Home => {
            state.move_to_start(modifiers.shift);
        },
        Key::End => {
            state.move_to_end(modifiers.shift);
        },
        Key::Return => {},
        _ => {
            if key == Key::A && modifiers.cmd {
                state.select_all();
            } else {
                match character {
                    Some(c) => {
                        if !modifiers.cmd && !modifiers.ctrl {
                            let mut s = String::new();
                            push_char(&mut s, c);
                            assert(s@ =~= seq![c]);
                            let ghost reset = *state;
                            state.insert(s.as_str());
                            proof {
                                let mid = choose|mid: TextInputState| {
                                    &&& #[trigger] selection_deleted(reset, mid)
                                    &&& state.text@ == spliced(mid.text@, mid.cursor as int, mid.cursor as int, s@)
                                    &&& state.cursor == mid.cursor + s@.len()
                                    &&& state.selection_start is None
                                };
                                assert(selection_deleted(*old(state), mid));
                            }
                            text_changed = true;
                        }
                    },
                    None => {},
                }
            }
        },
    }
    KeyOutcome { text_changed, submitted: key == Key::Return }
}

/// Frames between two toggles of a blinking cursor.
pub const BLINK_FRAMES: u32 = 30;

/// Advance the cursor blink by one painted frame.  While `focused`, the
/// frame counter advances and, on reaching `BLINK_FRAMES`, the cursor is
/// toggled and the counter restarts; unfocused, the cursor is shown and the
/// counter restarts.  Text, cursor and selection stay.
pub fn blink_step(state: &mut TextInputState, focused: bool)
    requires
        focused ==> old(state).blink_counter < u32::MAX,
    ensures
        final(state).text == old(state).text,
        final(state).cursor == old(state).cursor,
        final(state).selection_start == old(state).selection_start,
        focused && old(state).blink_counter + 1 >= BLINK_FRAMES ==> {
            &&& final(state).cursor_visible == !old(state).cursor_visible
            &&& final(state).blink_counter == 0
        },
        focused && old(state).blink_counter + 1 < BLINK_FRAMES ==> {
            &&& final(state).cursor_visible == old(state).cursor_visible
            &&& final(state).blink_counter == old(state).blink_counter + 1
        },
        !focused ==> final(state).cursor_visible && final(state).blink_counter == 0,
{
    if focused {
        state.blink_counter = state.blink_counter + 1;
        if state.blink_counter >= BLINK_FRAMES {
            state.cursor_visible = !state.cursor_visible;
            state.blink_counter = 0;
        }
    } else {
        state.cursor_visible = true;
        state.blink_counter = 0;
    }
}

/// Law: typing depends only on Cmd and Ctrl.  A key other than the
/// deleting, moving and submitting ones types its character exactly when
/// it carries one and neither Cmd nor Ctrl is held, whatever Shift and Alt
/// are; so two presses that differ only in Shift or Alt edit alike.
pub proof fn law_typing_ignores_shift_and_alt(key: Key, modifiers: Modifiers, other: Modifiers, character: Option<char>)
    requires
        !is_command_key(key),
    ensures
        key_edits(key, modifiers, character) == (character is Some && !modifiers.cmd && !modifiers.ctrl),
        other.cmd == modifiers.cmd && other.ctrl == modifiers.ctrl ==> key_edits(key, other, character) == key_edits(
            key,
            modifiers,
            character,
        ),
{
}

/// Law: Backspace and Delete remove one character next to the cursor when
/// nothing is selected (Backspace the one before it, moving the cursor back;
/// Delete the one after it, keeping the cursor), remove exactly the
/// selected characters when something is, and change nothing at the edge
/// of the text.
pub proof fn law_deletion_keys(before: TextInputState, after: TextInputState)
    requires
        before.wf(),
    ensures
        backspaced(before, after) && sel_range(before) is None && before.cursor > 0 ==> {
            &&& after.text@ == before.text@.remove(before.cursor - 1)
            &&& after.cursor == before.cursor - 1
        },
        backspaced(before, after) && sel_range(before) is None && before.cursor == 0 ==> after.text@ == before.text@
            && after.cursor == 0,
        deleted_forward(before, after) && sel_range(before) is None && before.cursor < before.text@.len() ==> {
            &&& after.text@ == before.text@.remove(before.cursor as int)
            &&& after.cursor == before.cursor
        },
        deleted_forward(before, after) && sel_range(before) is None && before.cursor == before.text@.len()
            ==> after.text@ == before.text@ && after.cursor == before.cursor,
        (backspaced(before, after) || deleted_forward(before, after)) && sel_range(before) is Some ==> {
            &&& after.text@ == before.text@.subrange(0, sel_lo(before) as int)
                + before.text@.subrange(sel_hi(before) as int, before.text@.len() as int)
            &&& after.cursor == sel_lo(before)
            &&& after.selection_start is None
        },
{
    let t = before.text@;
    let c = before.cursor as int;
    if c > 0 {
        assert(spliced(t, c - 1, c, Seq::empty()) =~= t.remove(c - 1));
    }
    if c < t.len() {
        assert(spliced(t, c, c + 1, Seq::empty()) =~= t.remove(c));
    }
    if sel_range(before) is Some {
        assert(spliced(t, sel_lo(before) as int, sel_hi(before) as int, Seq::empty()) =~= t.subrange(0, sel_lo(before) as int)
            + t.subrange(sel_hi(before) as int, t.len() as int));
    }
}

/// Law: Left then Right, without Shift and with nothing selected, brings
/// the cursor back when it was not at the start; Select all then Backspace
/// empties the text.
pub proof fn law_moves_and_select_all(before: TextInputState, mid: TextInputState, after: TextInputState)
    requires
        before.wf(),
    ensures
        moved_left(before, mid, false) && moved_right(mid, after, false) && sel_range(before) is None && before.cursor > 0
            ==> after.cursor == before.cursor && after.text@ == before.text@ && after.selection_start is None,
        selected_all(before, mid) && backspaced(mid, after) ==> after.text@ == Seq::<char>::empty() && after.cursor == 0,
{
    if selected_all(before, mid) && backspaced(mid, after) {
        assert(sel_range(mid) == Some((0usize, before.text@.len() as usize)));
        assert(spliced(mid.text@, 0, mid.text@.len() as int, Seq::empty()) =~= Seq::<char>::empty());
    }
}

/// Typing a character and then pressing Backspace gives back the text:
/// removing the character before the cursor undoes inserting one at it.
pub proof fn law_backspace_undoes_typing(t: Seq<char>, cursor: int, c: char)
    requires
        0 <= cursor <= t.len(),
    ensures
        spliced(spliced(t, cursor, cursor, seq![c]), cursor, cursor + 1, Seq::empty()) == t,
{
    assert(spliced(spliced(t, cursor, cursor, seq![c]), cursor, cursor + 1, Seq::empty()) =~= t);
}

/// Deleting a selection and then inserting text at the cursor is the same
/// as replacing the selected characters by that text.
pub proof fn law_insert_replaces_selection(before: TextInputState, mid: TextInputState, ins: Seq<char>)
    requires
        before.wf(),
        sel_range(before) is Some,
        selection_deleted(before, mid),
    ensures
        spliced(mid.text@, mid.cursor as int, mid.cursor as int, ins) == spliced(
            before.text@,
            sel_lo(before) as int,
            sel_hi(before) as int,
            ins,
        ),
{
    assert(spliced(mid.text@, mid.cursor as int, mid.cursor as int, ins) =~= spliced(
        before.text@,
        sel_lo(before) as int,
        sel_hi(before) as int,
        ins,
    ));
}

} // verus!
