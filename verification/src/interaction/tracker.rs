//! Interaction state across a UI layer, by element: hover, press, focus,
//! tab-order focus navigation and focus traps for modal dialogs.
//!
//! Positions and hit testing stay with the caller, which passes in the
//! element under the pointer; the tracker decides the resulting state
//! changes and the events to deliver, as [`EventKind`]s that the caller
//! completes with positions.

use vstd::prelude::*;
use crate::interaction::{contains_element, ElementId, InteractionState};
use crate::interaction::element_map::ElementMap;
use crate::interaction::registry::EventKind;
use crate::layer::{Key, Modifiers, MouseButton};
use crate::seqs::{keep, lemma_keep_push};

verus! {

/// The first position of `x` in `s`, or -1.
pub open spec fn first_index(s: Seq<ElementId>, x: ElementId) -> int {
    if exists|i: int| 0 <= i < s.len() && s[i] == x && forall|j: int| 0 <= j < i ==> s[j] != x {
        choose|i: int| 0 <= i < s.len() && s[i] == x && forall|j: int| 0 <= j < i ==> s[j] != x
    } else {
        -1
    }
}

/// Find the first position of `x` in `s`.
fn find_first(s: &[ElementId], x: ElementId) -> (r: Option<usize>)
    ensures
        r is None <==> !s@.contains(x),
        r is None ==> first_index(s@, x) == -1,
        r matches Some(i) ==> i as int == first_index(s@, x) && (i as int) < s@.len(),
{
    let mut i: usize = 0;
    while i < s.len()
        invariant
            i <= s@.len(),
            forall|j: int| 0 <= j < i ==> s@[j] != x,
        decreases s@.len() - i,
    {
        if s[i] == x {
            proof {
                let w = choose|w: int| 0 <= w < s@.len() && s@[w] == x && forall|j: int| 0 <= j < w ==> s@[j] != x;
                assert(s@[i as int] == x);
                if w < i {
                    assert(s@[w] != x);
                } else if w > i {
                    assert(s@[i as int] != x);
                }
            }
            return Some(i);
        }
        i = i + 1;
    }
    proof {
        if exists|w: int| 0 <= w < s@.len() && s@[w] == x && forall|j: int| 0 <= j < w ==> s@[j] != x {
            let w = choose|w: int| 0 <= w < s@.len() && s@[w] == x && forall|j: int| 0 <= j < w ==> s@[j] != x;
            assert(s@[w] != x);
        }
    }
    None
}

/// Element states after focus moved from `prev` to `next`: the previously
/// focused element (if tracked) loses focus, the newly focused one is
/// tracked and gains it.
pub open spec fn refocused_states(
    states: Map<ElementId, InteractionState>,
    prev: Option<ElementId>,
    next: Option<ElementId>,
) -> Map<ElementId, InteractionState> {
    let s1 = match prev {
        Some(p) => if states.contains_key(p) {
            states.insert(p, InteractionState { is_focused: false, ..states[p] })
        } else {
            states
        },
        None => states,
    };
    match next {
        Some(n) => s1.insert(n, InteractionState {
            is_focused: true,
            ..(if s1.contains_key(n) { s1[n] } else { InteractionState { is_hovered: false, is_pressed: false, is_focused: false } })
        }),
        None => s1,
    }
}

/// The events of focus moving from `prev` to `next`.
pub open spec fn refocus_events(prev: Option<ElementId>, next: Option<ElementId>) -> Seq<EventKind> {
    (match prev { Some(p) => seq![EventKind::FocusOut(p)], None => Seq::empty() })
        + (match next { Some(n) => seq![EventKind::FocusIn(n)], None => Seq::empty() })
}

/// Element states after the hover moved from `prev` to `next`.
pub open spec fn rehovered_states(
    states: Map<ElementId, InteractionState>,
    prev: Option<ElementId>,
    next: Option<ElementId>,
) -> Map<ElementId, InteractionState> {
    let s1 = match prev {
        Some(p) => if states.contains_key(p) {
            states.insert(p, InteractionState { is_hovered: false, ..states[p] })
        } else {
            states
        },
        None => states,
    };
    match next {
        Some(n) => s1.insert(n, InteractionState {
            is_hovered: true,
            ..(if s1.contains_key(n) { s1[n] } else { InteractionState { is_hovered: false, is_pressed: false, is_focused: false } })
        }),
        None => s1,
    }
}

/// `states` with the pressed flag of `id` set to `pressed`, if `id` is tracked.
pub open spec fn with_pressed(states: Map<ElementId, InteractionState>, id: ElementId, pressed: bool) -> Map<ElementId, InteractionState> {
    if states.contains_key(id) {
        states.insert(id, InteractionState { is_pressed: pressed, ..states[id] })
    } else {
        states
    }
}

/// A focus candidate from hit testing: an element, its z-index, and whether it is focusable.
#[derive(Debug, Clone, Copy, PartialEq, Eq, Structural)]
pub struct FocusCandidate {
    pub element_id: ElementId,
    pub z_index: i32,
    pub focusable: bool,
}

/// Selects entries of z-index `z`.
pub open spec fn at_z(z: i32) -> spec_fn((i32, ElementId)) -> bool {
    |t: (i32, ElementId)| t.0 == z
}

/// `ordered` is `cands` in ascending z order, keeping equal z-indices in
/// the order they were given in.
pub open spec fn orders_by_z(cands: Seq<(i32, ElementId)>, ordered: Seq<(i32, ElementId)>) -> bool {
    &&& ordered.len() == cands.len()
    &&& forall|i: int, j: int| 0 <= i < j < ordered.len() ==> (#[trigger] ordered[i]).0 <= (#[trigger] ordered[j]).0
    &&& forall|z: i32| #[trigger] keep(ordered, at_z(z)) == keep(cands, at_z(z))
}

/// The focusable candidates as (z-index, element) pairs, in order.
pub open spec fn focusable_candidates(entries: Seq<FocusCandidate>) -> Seq<(i32, ElementId)> {
    keep(entries, |c: FocusCandidate| c.focusable).map_values(|c: FocusCandidate| (c.z_index, c.element_id))
}

/// The elements of (z-index, element) pairs.
pub open spec fn elements_of(s: Seq<(i32, ElementId)>) -> Seq<ElementId> {
    s.map_values(|t: (i32, ElementId)| t.1)
}

proof fn lemma_orders_insert(cands: Seq<(i32, ElementId)>, ordered: Seq<(i32, ElementId)>, x: (i32, ElementId), j: int)
    requires
        orders_by_z(cands, ordered),
        0 <= j <= ordered.len(),
        forall|k: int| 0 <= k < j ==> (#[trigger] ordered[k]).0 <= x.0,
        forall|k: int| j <= k < ordered.len() ==> (#[trigger] ordered[k]).0 > x.0,
    ensures
        orders_by_z(cands.push(x), ordered.insert(j, x)),
{
    let r2 = ordered.insert(j, x);
    let pre = ordered.take(j);
    let post = ordered.skip(j);
    assert(r2 =~= pre + seq![x] + post);
    assert(ordered =~= pre + post);
    assert forall|a: int, b: int| 0 <= a < b < r2.len() implies (#[trigger] r2[a]).0 <= (#[trigger] r2[b]).0 by {
        if a < j && b < j {
            assert(r2[a] == ordered[a] && r2[b] == ordered[b]);
        } else if a < j && b == j {
            assert(r2[a] == ordered[a]);
        } else if a < j {
            assert(r2[a] == ordered[a] && r2[b] == ordered[b - 1]);
        } else if a == j {
            assert(r2[b] == ordered[b - 1]);
        } else {
            assert(r2[a] == ordered[a - 1] && r2[b] == ordered[b - 1]);
        }
    }
    assert forall|z: i32| #[trigger] keep(r2, at_z(z)) == keep(cands.push(x), at_z(z)) by {
        let f = at_z(z);
        crate::seqs::lemma_keep_concat(pre + seq![x], post, f);
        crate::seqs::lemma_keep_concat(pre, seq![x], f);
        crate::seqs::lemma_keep_concat(pre, post, f);
        crate::seqs::lemma_keep_single(x, f);
        lemma_keep_push(cands, x, f);
        if z == x.0 {
            assert forall|k: int| 0 <= k < post.len() implies !f(#[trigger] post[k]) by {
                assert(post[k] == ordered[j + k]);
            }
            crate::seqs::lemma_keep_none(post, f);
            assert(keep(pre, f) + seq![x] =~= (keep(pre, f) + keep(post, f)).push(x));
        } else {
            assert(keep(pre, f) + Seq::<(i32, ElementId)>::empty() =~= keep(pre, f));
        }
    }
}

/// Interaction state of the elements of a UI layer.
pub struct InteractionTracker {
    hovered_element: Option<ElementId>,
    pressed_element: Option<(ElementId, MouseButton)>,
    focused_element: Option<ElementId>,
    current_modifiers: Modifiers,
    element_states: ElementMap<InteractionState>,
    focusable_elements: Vec<ElementId>,
    mouse_in_window: bool,
    focus_trap_stack: Vec<Vec<ElementId>>,
}

impl InteractionTracker {
    pub closed spec fn hovered(&self) -> Option<ElementId> {
        self.hovered_element
    }

    pub closed spec fn pressed(&self) -> Option<(ElementId, MouseButton)> {
        self.pressed_element
    }

    pub closed spec fn focused(&self) -> Option<ElementId> {
        self.focused_element
    }

    pub closed spec fn modifiers(&self) -> Modifiers {
        self.current_modifiers
    }

    pub closed spec fn states(&self) -> Map<ElementId, InteractionState> {
        self.element_states@
    }

    /// Focusable elements in tab order.
    pub closed spec fn focusable(&self) -> Seq<ElementId> {
        self.focusable_elements@
    }

    pub closed spec fn in_window(&self) -> bool {
        self.mouse_in_window
    }

    /// The focus traps, innermost last.
    pub closed spec fn traps(&self) -> Seq<Seq<ElementId>> {
        self.focus_trap_stack@.map_values(|t: Vec<ElementId>| t@)
    }

    pub closed spec fn wf(&self) -> bool {
        self.element_states.wf()
    }

    /// The elements focus navigation cycles through: the innermost trap if
    /// any, else all focusable elements.
    pub open spec fn navigable(&self) -> Seq<ElementId> {
        if self.traps().len() > 0 {
            self.traps().last()
        } else {
            self.focusable()
        }
    }

    /// `after` is this tracker after focus moved to `next`, producing
    /// `events`; nothing but focus and element states changes.
    pub open spec fn refocused(self, after: Self, next: Option<ElementId>, events: Seq<EventKind>) -> bool {
        &&& self.focus_changed(after, next, events)
        &&& self.pointer_unchanged(after)
        &&& after.focusable() == self.focusable()
        &&& after.traps() == self.traps()
    }

    /// `after` has focus on `next`, reached from this tracker's focus with
    /// `events`: none if focus stays, else the focus-out and focus-in events,
    /// with the element states updated accordingly.
    pub open spec fn focus_changed(self, after: Self, next: Option<ElementId>, events: Seq<EventKind>) -> bool {
        &&& if self.focused() == next {
            &&& events == Seq::<EventKind>::empty()
            &&& after.states() == self.states()
        } else {
            &&& events == refocus_events(self.focused(), next)
            &&& after.states() == refocused_states(self.states(), self.focused(), next)
        }
        &&& after.focused() == next
    }

    /// Hover, press, modifiers and window presence are the same in `after`.
    pub open spec fn pointer_unchanged(self, after: Self) -> bool {
        &&& self.hover_press_unchanged(after)
        &&& after.modifiers() == self.modifiers()
    }

    /// Hover, press and window presence are the same in `after`.
    pub open spec fn hover_press_unchanged(self, after: Self) -> bool {
        &&& after.hovered() == self.hovered()
        &&& after.pressed() == self.pressed()
        &&& after.in_window() == self.in_window()
    }

    /// Nothing tracked: no hover, press or focus, no focusable elements.
    pub fn new() -> (t: Self)
        ensures
            t.wf(),
            t.hovered() is None,
            t.pressed() is None,
            t.focused() is None,
            t.modifiers() == (Modifiers { shift: false, ctrl: false, alt: false, cmd: false, caps_lock: false }),
            t.states() == Map::<ElementId, InteractionState>::empty(),
            t.focusable() == Seq::<ElementId>::empty(),
            !t.in_window(),
            t.traps() == Seq::<Seq<ElementId>>::empty(),
    {
        let t = InteractionTracker {
            hovered_element: None,
            pressed_element: None,
            focused_element: None,
            current_modifiers: Modifiers::new(),
            element_states: ElementMap::new(),
            focusable_elements: Vec::new(),
            mouse_in_window: false,
            focus_trap_stack: Vec::new(),
        };
        assert(t.traps() =~= Seq::<Seq<ElementId>>::empty());
        t
    }

    /// The focused element.
    pub fn focused_element(&self) -> (r: Option<ElementId>)
        ensures
            r == self.focused(),
    {
        self.focused_element
    }

    /// Move focus to `element_id`; returns the focus-out event of the
    /// previously focused element and the focus-in event of the new one.
    pub fn set_focus(&mut self, element_id: Option<ElementId>) -> (events: Vec<EventKind>)
        requires
            old(self).wf(),
        ensures
            final(self).wf(),
            old(self).refocused(*final(self), element_id, events@),
    {
        let mut events: Vec<EventKind> = Vec::new();
        if self.focused_element == element_id {
            return events;
        }
        if let Some(prev_id) = self.focused_element {
            if let Some(state) = self.element_states.get(prev_id) {
                let mut s = *state;
                s.is_focused = false;
                self.element_states.insert(prev_id, s);
            }
            events.push(EventKind::FocusOut(prev_id));
        }
        if let Some(new_id) = element_id {
            let mut s = match self.element_states.get(new_id) {
                Some(st) => *st,
                None => InteractionState::new(),
            };
            s.is_focused = true;
            self.element_states.insert(new_id, s);
            events.push(EventKind::FocusIn(new_id));
        }
        self.focused_element = element_id;
        proof {
            assert(events@ =~= refocus_events(old(self).focused(), element_id));
        }
        events
    }
}


impl InteractionTracker {
    /// Position in the navigable elements that "next" moves focus to: after
    /// the focused element (or after the first one when the focused element
    /// is not navigable), wrapping around; the first one when nothing has focus.
    pub open spec fn next_index(&self) -> int {
        let nav = self.navigable();
        match self.focused() {
            Some(c) => {
                let ci = first_index(nav, c);
                ((if ci < 0 { 0 } else { ci }) + 1) % (nav.len() as int)
            },
            None => 0,
        }
    }

    /// Position in the navigable elements that "previous" moves focus to:
    /// before the focused element, wrapping around; the last one when
    /// nothing has focus or the focused element is first or not navigable.
    pub open spec fn previous_index(&self) -> int {
        let nav = self.navigable();
        match self.focused() {
            Some(c) => {
                let ci = first_index(nav, c);
                if ci <= 0 { nav.len() - 1 } else { ci - 1 }
            },
            None => nav.len() - 1,
        }
    }

    fn navigable_elements(&self) -> (r: &[ElementId])
        ensures
            r@ == self.navigable(),
    {
        let n = self.focus_trap_stack.len();
        if n > 0 {
            proof {
                assert(self.traps().last() == self.focus_trap_stack@[n - 1]@);
            }
            self.focus_trap_stack[n - 1].as_slice()
        } else {
            self.focusable_elements.as_slice()
        }
    }

    /// Register `element_id` as focusable unless it already is.
    pub fn register_focusable(&mut self, element_id: ElementId)
        requires
            old(self).wf(),
        ensures
            final(self).wf(),
            final(self).focusable() == (if old(self).focusable().contains(element_id) {
                old(self).focusable()
            } else {
                old(self).focusable().push(element_id)
            }),
            final(self).focused() == old(self).focused(),
            final(self).states() == old(self).states(),
            final(self).traps() == old(self).traps(),
            old(self).pointer_unchanged(*final(self)),
    {
        if !contains_element(self.focusable_elements.as_slice(), element_id) {
            self.focusable_elements.push(element_id);
        }
    }

    /// Forget the focusable elements.
    pub fn clear_focusable_elements(&mut self)
        requires
            old(self).wf(),
        ensures
            final(self).wf(),
            final(self).focusable() == Seq::<ElementId>::empty(),
            final(self).focused() == old(self).focused(),
            final(self).states() == old(self).states(),
            final(self).traps() == old(self).traps(),
            old(self).pointer_unchanged(*final(self)),
    {
        self.focusable_elements.clear();
    }

    /// Move focus to the next navigable element (the Tab key).
    pub fn focus_next(&mut self) -> (events: Vec<EventKind>)
        requires
            old(self).wf(),
        ensures
            final(self).wf(),
            old(self).navigable().len() == 0 ==> old(self).refocused(*final(self), old(self).focused(), events@),
            old(self).navigable().len() > 0 ==> old(self).refocused(
                *final(self),
                Some(old(self).navigable()[old(self).next_index()]),
                events@,
            ),
    {
        let navigable = self.navigable_elements();
        let len = navigable.len();
        if len == 0 {
            return Vec::new();
        }
        let next_index = match self.focused_element {
            Some(current) => {
                let ci = match find_first(navigable, current) {
                    Some(i) => i,
                    None => 0,
                };
                (ci + 1) % len
            },
            None => 0,
        };
        let next_element = navigable[next_index];
        self.set_focus(Some(next_element))
    }

    /// Move focus to the previous navigable element (Shift+Tab).
    pub fn focus_previous(&mut self) -> (events: Vec<EventKind>)
        requires
            old(self).wf(),
        ensures
            final(self).wf(),
            old(self).navigable().len() == 0 ==> old(self).refocused(*final(self), old(self).focused(), events@),
            old(self).navigable().len() > 0 ==> old(self).refocused(
                *final(self),
                Some(old(self).navigable()[old(self).previous_index()]),
                events@,
            ),
    {
        let navigable = self.navigable_elements();
        let len = navigable.len();
        if len == 0 {
            return Vec::new();
        }
        let prev_index = match self.focused_element {
            Some(current) => {
                let ci = match find_first(navigable, current) {
                    Some(i) => i,
                    None => 0,
                };
                if ci == 0 { len - 1 } else { ci - 1 }
            },
            None => len - 1,
        };
        let prev_element = navigable[prev_index];
        self.set_focus(Some(prev_element))
    }

    /// Whether a focus trap is active.
    pub fn has_focus_trap(&self) -> (r: bool)
        ensures
            r == (self.traps().len() > 0),
    {
        self.focus_trap_stack.len() > 0
    }

    /// The elements of `element_ids` that are focusable.
    pub open spec fn trap_of(&self, element_ids: Seq<ElementId>) -> Seq<ElementId> {
        keep(element_ids, |id: ElementId| self.focusable().contains(id))
    }

    /// `after` is this tracker after trapping focus among `element_ids`
    /// with `events`: no change when none of them is focusable; otherwise
    /// the trap is pushed and focus stays if it is inside the trap, else
    /// moves to the trap's first element.
    pub open spec fn trapped(self, after: Self, element_ids: Seq<ElementId>, events: Seq<EventKind>) -> bool {
        let trap = self.trap_of(element_ids);
        if trap.len() == 0 {
            self.refocused(after, self.focused(), events)
        } else {
            let target = match self.focused() {
                Some(f) => if trap.contains(f) { Some(f) } else { Some(trap[0]) },
                None => Some(trap[0]),
            };
            &&& after.traps() == self.traps().push(trap)
            &&& self.focus_changed(after, target, events)
        }
    }

    /// Trap focus (for a modal) among the focusable elements of
    /// `element_ids`; unless focus is already inside the trap, its first
    /// element gains focus.  A trap with no focusable element is ignored.
    pub fn push_focus_trap(&mut self, element_ids: Vec<ElementId>) -> (events: Vec<EventKind>)
        requires
            old(self).wf(),
        ensures
            final(self).wf(),
            old(self).pointer_unchanged(*final(self)),
            final(self).focusable() == old(self).focusable(),
            old(self).trapped(*final(self), element_ids@, events@),
    {
        let ghost f = |id: ElementId| old(self).focusable().contains(id);
        let mut trap: Vec<ElementId> = Vec::new();
        let mut i: usize = 0;
        while i < element_ids.len()
            invariant
                i <= element_ids@.len(),
                f == (|id: ElementId| old(self).focusable().contains(id)),
                self.focusable_elements@ == old(self).focusable(),
                trap@ == keep(element_ids@.take(i as int), f),
            decreases element_ids@.len() - i,
        {
            let id = element_ids[i];
            proof {
                assert(element_ids@.take(i + 1) =~= element_ids@.take(i as int).push(id));
                lemma_keep_push(element_ids@.take(i as int), id, f);
            }
            if contains_element(self.focusable_elements.as_slice(), id) {
                trap.push(id);
            }
            i = i + 1;
        }
        proof {
            assert(element_ids@.take(i as int) =~= element_ids@);
            assert(trap@ == old(self).trap_of(element_ids@));
        }
        if trap.len() == 0 {
            return Vec::new();
        }
        let should_focus_first = match self.focused_element {
            Some(focused) => !contains_element(trap.as_slice(), focused),
            None => true,
        };
        let first_element = trap[0];
        let ghost tv = trap@;
        self.focus_trap_stack.push(trap);
        proof {
            assert(self.traps() =~= old(self).traps().push(tv));
        }
        if should_focus_first {
            self.set_focus(Some(first_element))
        } else {
            Vec::new()
        }
    }

    /// Release the innermost focus trap; if the focused element is then not
    /// navigable, focus moves to the first navigable element.
    pub fn pop_focus_trap(&mut self) -> (events: Vec<EventKind>)
        requires
            old(self).wf(),
        ensures
            final(self).wf(),
            old(self).pointer_unchanged(*final(self)),
            final(self).focusable() == old(self).focusable(),
            final(self).traps() == (if old(self).traps().len() > 0 {
                old(self).traps().drop_last()
            } else {
                old(self).traps()
            }),
            old(self).focus_changed(
                *final(self),
                match old(self).focused() {
                    Some(c) => if !final(self).navigable().contains(c) && final(self).navigable().len() > 0 {
                        Some(final(self).navigable()[0])
                    } else {
                        Some(c)
                    },
                    None => None,
                },
                events@,
            ),
    {
        let ghost before = self.focus_trap_stack@;
        let _ = self.focus_trap_stack.pop();
        proof {
            if before.len() > 0 {
                assert(self.traps() =~= old(self).traps().drop_last());
            } else {
                assert(self.traps() =~= old(self).traps());
            }
        }
        if let Some(current) = self.focused_element {
            let navigable = self.navigable_elements();
            if !contains_element(navigable, current) && navigable.len() > 0 {
                let first = navigable[0];
                return self.set_focus(Some(first));
            }
        }
        Vec::new()
    }
}


impl InteractionTracker {
    /// Move the hover to `hit`, the element now under the pointer; returns
    /// the leave and enter events when the hovered element changes.
    pub fn hover_to(&mut self, hit: Option<ElementId>) -> (events: Vec<EventKind>)
        requires
            old(self).wf(),
        ensures
            final(self).wf(),
            final(self).hovered() == hit,
            old(self).hovered() == hit ==> events@ == Seq::<EventKind>::empty() && final(self).states() == old(self).states(),
            old(self).hovered() != hit ==> {
                &&& events@ == (match old(self).hovered() { Some(p) => seq![EventKind::MouseLeave(p)], None => Seq::empty() })
                    + (match hit { Some(n) => seq![EventKind::MouseEnter(n)], None => Seq::empty() })
                &&& final(self).states() == rehovered_states(old(self).states(), old(self).hovered(), hit)
            },
            old(self).hovered() matches Some(p) ==> (hit != Some(p) && old(self).states().contains_key(p) ==> {
                &&& final(self).states().contains_key(p)
                &&& !final(self).states()[p].is_hovered
                &&& final(self).states()[p].is_pressed == old(self).states()[p].is_pressed
                &&& final(self).states()[p].is_focused == old(self).states()[p].is_focused
            }),
            hit matches Some(n) ==> (old(self).hovered() != hit ==> final(self).states().contains_key(n)
                && final(self).states()[n].is_hovered),
            forall|e: ElementId| Some(e) != old(self).hovered() && Some(e) != hit ==> {
                &&& final(self).states().contains_key(e) == old(self).states().contains_key(e)
                &&& #[trigger] final(self).states()[e] == old(self).states()[e]
            },
            final(self).pressed() == old(self).pressed(),
            final(self).focused() == old(self).focused(),
            final(self).modifiers() == old(self).modifiers(),
            final(self).in_window() == old(self).in_window(),
            final(self).focusable() == old(self).focusable(),
            final(self).traps() == old(self).traps(),
    {
        let mut events: Vec<EventKind> = Vec::new();
        if hit != self.hovered_element {
            if let Some(prev_id) = self.hovered_element {
                if let Some(state) = self.element_states.get(prev_id) {
                    let mut st = *state;
                    st.is_hovered = false;
                    self.element_states.insert(prev_id, st);
                }
                events.push(EventKind::MouseLeave(prev_id));
            }
            if let Some(new_id) = hit {
                let mut st = match self.element_states.get(new_id) {
                    Some(x) => *x,
                    None => InteractionState::new(),
                };
                st.is_hovered = true;
                self.element_states.insert(new_id, st);
                events.push(EventKind::MouseEnter(new_id));
            }
            self.hovered_element = hit;
            proof {
                assert(events@ =~= (match old(self).hovered() { Some(p) => seq![EventKind::MouseLeave(p)], None => Seq::empty() })
                    + (match hit { Some(n) => seq![EventKind::MouseEnter(n)], None => Seq::empty() }));
            }
        }
        events
    }

    /// The pointer moved within the window over `hit`: hover changes as in
    /// [`Self::hover_to`], then the hovered element receives a move event.
    pub fn pointer_moved(&mut self, hit: Option<ElementId>) -> (events: Vec<EventKind>)
        requires
            old(self).wf(),
        ensures
            final(self).wf(),
            final(self).in_window(),
            final(self).hovered() == hit,
            old(self).hovered() == hit ==> final(self).states() == old(self).states(),
            old(self).hovered() != hit ==> final(self).states() == rehovered_states(old(self).states(), old(self).hovered(), hit),
            old(self).hovered() matches Some(p) ==> (hit != Some(p) && old(self).states().contains_key(p) ==> {
                &&& final(self).states().contains_key(p)
                &&& !final(self).states()[p].is_hovered
                &&& final(self).states()[p].is_pressed == old(self).states()[p].is_pressed
                &&& final(self).states()[p].is_focused == old(self).states()[p].is_focused
            }),
            hit matches Some(n) ==> (old(self).hovered() != hit ==> final(self).states().contains_key(n)
                && final(self).states()[n].is_hovered),
            forall|e: ElementId| Some(e) != old(self).hovered() && Some(e) != hit ==> {
                &&& final(self).states().contains_key(e) == old(self).states().contains_key(e)
                &&& #[trigger] final(self).states()[e] == old(self).states()[e]
            },
            events@ == (if old(self).hovered() == hit {
                Seq::<EventKind>::empty()
            } else {
                (match old(self).hovered() { Some(p) => seq![EventKind::MouseLeave(p)], None => Seq::empty() })
                    + (match hit { Some(n) => seq![EventKind::MouseEnter(n)], None => Seq::empty() })
            }) + (match hit { Some(h) => seq![EventKind::MouseMove(h)], None => Seq::empty() }),
            final(self).pressed() == old(self).pressed(),
            final(self).focused() == old(self).focused(),
            final(self).modifiers() == old(self).modifiers(),
            final(self).focusable() == old(self).focusable(),
            final(self).traps() == old(self).traps(),
    {
        self.mouse_in_window = true;
        let mut events = self.hover_to(hit);
        let ghost before = events@;
        if let Some(h) = hit {
            events.push(EventKind::MouseMove(h));
        }
        proof {
            assert(events@ =~= before + (match hit { Some(h) => seq![EventKind::MouseMove(h)], None => Seq::empty() }));
        }
        events
    }

    /// A button went down over `hit`: the element is pressed and receives a
    /// mouse-down event, and a left click focuses it if it is focusable;
    /// pressing over empty space clears focus.
    pub fn press(&mut self, hit: Option<ElementId>, button: MouseButton) -> (events: Vec<EventKind>)
        requires
            old(self).wf(),
        ensures
            final(self).wf(),
            final(self).hovered() == old(self).hovered(),
            final(self).in_window() == old(self).in_window(),
            final(self).modifiers() == old(self).modifiers(),
            final(self).focusable() == old(self).focusable(),
            final(self).traps() == old(self).traps(),
            hit is None ==> {
                &&& final(self).pressed() == old(self).pressed()
                &&& old(self).focus_changed(*final(self), None, events@)
            },
            hit matches Some(id) ==> {
                &&& final(self).pressed() == Some((id, button))
                &&& if button == MouseButton::Left && old(self).focusable().contains(id) {
                    let pressed_states = with_pressed(old(self).states(), id, true);
                    &&& events@ == seq![EventKind::MouseDown(id)] + (if old(self).focused() == Some(id) {
                        Seq::<EventKind>::empty()
                    } else {
                        refocus_events(old(self).focused(), Some(id))
                    })
                    &&& final(self).focused() == Some(id)
                    &&& final(self).states() == (if old(self).focused() == Some(id) {
                        pressed_states
                    } else {
                        refocused_states(pressed_states, old(self).focused(), Some(id))
                    })
                } else {
                    &&& events@ == seq![EventKind::MouseDown(id)]
                    &&& final(self).focused() == old(self).focused()
                    &&& final(self).states() == with_pressed(old(self).states(), id, true)
                }
            },
    {
        match hit {
            Some(element_id) => {
                self.pressed_element = Some((element_id, button));
                if let Some(state) = self.element_states.get(element_id) {
                    let mut st = *state;
                    st.is_pressed = true;
                    self.element_states.insert(element_id, st);
                }
                let mut events: Vec<EventKind> = Vec::new();
                events.push(EventKind::MouseDown(element_id));
                let is_left = match button {
                    MouseButton::Left => true,
                    _ => false,
                };
                if is_left && contains_element(self.focusable_elements.as_slice(), element_id) {
                    let mut more = self.set_focus(Some(element_id));
                    let ghost e1 = events@;
                    let ghost e2 = more@;
                    events.append(&mut more);
                    proof {
                        assert(events@ =~= e1 + e2);
                    }
                }
                events
            },
            None => self.set_focus(None),
        }
    }

    /// Whether releasing `button` ends the current press.
    pub open spec fn releases(&self, button: MouseButton) -> bool {
        self.pressed() is Some && (self.pressed()->0).1 == button
    }

    /// A button went up over `hit`: if that button pressed an element, the
    /// element is released and receives a mouse-up event, followed by a
    /// click when the pointer is still over it.
    pub fn release(&mut self, hit: Option<ElementId>, button: MouseButton) -> (events: Vec<EventKind>)
        requires
            old(self).wf(),
        ensures
            final(self).wf(),
            final(self).hovered() == old(self).hovered(),
            final(self).in_window() == old(self).in_window(),
            final(self).modifiers() == old(self).modifiers(),
            final(self).focused() == old(self).focused(),
            final(self).focusable() == old(self).focusable(),
            final(self).traps() == old(self).traps(),
            old(self).releases(button) ==> {
                let pid = (old(self).pressed()->0).0;
                &&& final(self).pressed() is None
                &&& final(self).states() == with_pressed(old(self).states(), pid, false)
                &&& events@ == seq![EventKind::MouseUp(pid)] + (if hit == Some(pid) {
                    seq![EventKind::Click(pid)]
                } else {
                    Seq::<EventKind>::empty()
                })
            },
            !old(self).releases(button) ==> {
                &&& final(self).pressed() == old(self).pressed()
                &&& final(self).states() == old(self).states()
                &&& events@ == Seq::<EventKind>::empty()
            },
    {
        let mut events: Vec<EventKind> = Vec::new();
        if let Some((pressed_id, pressed_button)) = self.pressed_element {
            if pressed_button == button {
                self.pressed_element = None;
                if let Some(state) = self.element_states.get(pressed_id) {
                    let mut st = *state;
                    st.is_pressed = false;
                    self.element_states.insert(pressed_id, st);
                }
                events.push(EventKind::MouseUp(pressed_id));
                if hit == Some(pressed_id) {
                    events.push(EventKind::Click(pressed_id));
                }
                proof {
                    assert(events@ =~= seq![EventKind::MouseUp(pressed_id)] + (if hit == Some(pressed_id) {
                        seq![EventKind::Click(pressed_id)]
                    } else {
                        Seq::<EventKind>::empty()
                    }));
                }
            }
        }
        events
    }

    /// The pointer left the window: the hovered element is no longer hovered
    /// and receives a leave event.  A press is kept, so a drag can continue
    /// outside the window.
    pub fn leave_window(&mut self) -> (events: Vec<EventKind>)
        requires
            old(self).wf(),
        ensures
            final(self).wf(),
            !final(self).in_window(),
            final(self).hovered() is None,
            old(self).hovered() matches Some(h) ==> {
                &&& events@ == seq![EventKind::MouseLeave(h)]
                &&& final(self).states() == (if old(self).states().contains_key(h) {
                    old(self).states().insert(h, InteractionState { is_hovered: false, ..old(self).states()[h] })
                } else {
                    old(self).states()
                })
            },
            old(self).hovered() is None ==> events@ == Seq::<EventKind>::empty() && final(self).states() == old(self).states(),
            final(self).pressed() == old(self).pressed(),
            final(self).focused() == old(self).focused(),
            final(self).modifiers() == old(self).modifiers(),
            final(self).focusable() == old(self).focusable(),
            final(self).traps() == old(self).traps(),
    {
        self.mouse_in_window = false;
        let mut events: Vec<EventKind> = Vec::new();
        if let Some(hovered_id) = self.hovered_element {
            self.hovered_element = None;
            if let Some(state) = self.element_states.get(hovered_id) {
                let mut st = *state;
                st.is_hovered = false;
                self.element_states.insert(hovered_id, st);
            }
            events.push(EventKind::MouseLeave(hovered_id));
        }
        events
    }

    /// A key went down: Tab (unless repeated) moves focus forward, or
    /// backward with shift; any other key goes to the focused element.
    pub fn key_down(&mut self, key: Key, modifiers: Modifiers, is_repeat: bool) -> (events: Vec<EventKind>)
        requires
            old(self).wf(),
        ensures
            final(self).wf(),
            final(self).modifiers() == modifiers,
            old(self).hover_press_unchanged(*final(self)),
            final(self).focusable() == old(self).focusable(),
            final(self).traps() == old(self).traps(),
            key == Key::Tab && !is_repeat ==> old(self).focus_changed(
                *final(self),
                if old(self).navigable().len() == 0 {
                    old(self).focused()
                } else if modifiers.shift {
                    Some(old(self).navigable()[old(self).previous_index()])
                } else {
                    Some(old(self).navigable()[old(self).next_index()])
                },
                events@,
            ),
            !(key == Key::Tab && !is_repeat) ==> {
                &&& final(self).focused() == old(self).focused()
                &&& final(self).states() == old(self).states()
                &&& events@ == (match old(self).focused() {
                    Some(id) => seq![EventKind::KeyDown(id)],
                    None => Seq::empty(),
                })
            },
    {
        let is_tab = match key {
            Key::Tab => true,
            _ => false,
        };
        let events = if is_tab && !is_repeat {
            if modifiers.shift {
                self.focus_previous()
            } else {
                self.focus_next()
            }
        } else {
            let mut events: Vec<EventKind> = Vec::new();
            if let Some(element_id) = self.focused_element {
                events.push(EventKind::KeyDown(element_id));
            }
            proof {
                assert(events@ =~= (match old(self).focused() {
                    Some(id) => seq![EventKind::KeyDown(id)],
                    None => Seq::empty(),
                }));
            }
            events
        };
        self.current_modifiers = modifiers;
        events
    }

    /// A key went up: the focused element receives it.
    pub fn key_up(&mut self, modifiers: Modifiers) -> (events: Vec<EventKind>)
        requires
            old(self).wf(),
        ensures
            final(self).wf(),
            final(self).modifiers() == modifiers,
            old(self).hover_press_unchanged(*final(self)),
            final(self).focused() == old(self).focused(),
            final(self).states() == old(self).states(),
            final(self).focusable() == old(self).focusable(),
            final(self).traps() == old(self).traps(),
            events@ == (match old(self).focused() {
                Some(id) => seq![EventKind::KeyUp(id)],
                None => Seq::empty(),
            }),
    {
        self.current_modifiers = modifiers;
        let mut events: Vec<EventKind> = Vec::new();
        if let Some(element_id) = self.focused_element {
            events.push(EventKind::KeyUp(element_id));
        }
        proof {
            assert(events@ =~= (match old(self).focused() {
                Some(id) => seq![EventKind::KeyUp(id)],
                None => Seq::empty(),
            }));
        }
        events
    }

    /// The modifier keys changed.
    pub fn modifiers_changed(&mut self, modifiers: Modifiers)
        requires
            old(self).wf(),
        ensures
            final(self).wf(),
            final(self).modifiers() == modifiers,
            old(self).hover_press_unchanged(*final(self)),
            final(self).focused() == old(self).focused(),
            final(self).states() == old(self).states(),
            final(self).focusable() == old(self).focusable(),
            final(self).traps() == old(self).traps(),
    {
        self.current_modifiers = modifiers;
    }

    /// The interaction state of `element_id`.
    pub fn get_state(&self, element_id: ElementId) -> (r: Option<&InteractionState>)
        requires
            self.wf(),
        ensures
            r is Some <==> self.states().contains_key(element_id),
            r is Some ==> *(r->0) == self.states()[element_id],
    {
        self.element_states.get(element_id)
    }

    /// The current modifier state.
    pub fn current_modifiers(&self) -> (r: Modifiers)
        ensures
            r == self.modifiers(),
    {
        self.current_modifiers
    }

    /// Forget all interaction state (the modifier state and window presence
    /// are kept).
    pub fn clear(&mut self)
        requires
            old(self).wf(),
        ensures
            final(self).wf(),
            final(self).states() == Map::<ElementId, InteractionState>::empty(),
            final(self).hovered() is None,
            final(self).pressed() is None,
            final(self).focused() is None,
            final(self).focusable() == Seq::<ElementId>::empty(),
            final(self).traps() == Seq::<Seq<ElementId>>::empty(),
            final(self).modifiers() == old(self).modifiers(),
            final(self).in_window() == old(self).in_window(),
    {
        self.element_states.clear();
        self.hovered_element = None;
        self.pressed_element = None;
        self.focused_element = None;
        self.focusable_elements.clear();
        self.focus_trap_stack.clear();
        assert(self.traps() =~= Seq::<Seq<ElementId>>::empty());
    }

    /// Rebuild the tab order from this frame's hit-test entries: the
    /// focusable ones, by ascending z-index, equal z-indices in the order
    /// given.
    pub fn update_focus_order(&mut self, entries: &[FocusCandidate])
        requires
            old(self).wf(),
        ensures
            final(self).wf(),
            exists|ordered: Seq<(i32, ElementId)>| #[trigger] orders_by_z(focusable_candidates(entries@), ordered)
                && final(self).focusable() == elements_of(ordered),
            old(self).pointer_unchanged(*final(self)),
            final(self).focused() == old(self).focused(),
            final(self).states() == old(self).states(),
            final(self).traps() == old(self).traps(),
    {
        let ghost pf = |c: FocusCandidate| c.focusable;
        let ghost tz = |c: FocusCandidate| (c.z_index, c.element_id);
        let mut zs: Vec<i32> = Vec::new();
        let mut ids: Vec<ElementId> = Vec::new();
        let ghost mut ordered: Seq<(i32, ElementId)> = Seq::empty();
        let mut i: usize = 0;
        while i < entries.len()
            invariant
                i <= entries@.len(),
                pf == (|c: FocusCandidate| c.focusable),
                tz == (|c: FocusCandidate| (c.z_index, c.element_id)),
                zs@.len() == ordered.len(),
                ids@.len() == ordered.len(),
                forall|k: int| 0 <= k < ordered.len() ==> (#[trigger] ordered[k]) == (zs@[k], ids@[k]),
                orders_by_z(keep(entries@.take(i as int), pf).map_values(tz), ordered),
            decreases entries@.len() - i,
        {
            let c = entries[i];
            let ghost before_c = keep(entries@.take(i as int), pf).map_values(tz);
            proof {
                assert(entries@.take(i + 1) =~= entries@.take(i as int).push(c));
                lemma_keep_push(entries@.take(i as int), c, pf);
            }
            if c.focusable {
                let z = c.z_index;
                let mut j: usize = 0;
                while j < zs.len() && zs[j] <= z
                    invariant
                        j <= zs@.len(),
                        forall|k: int| 0 <= k < j ==> zs@[k] <= z,
                    decreases zs@.len() - j,
                {
                    j = j + 1;
                }
                let ghost x = (z, c.element_id);
                proof {
                    assert forall|k: int| 0 <= k < j implies (#[trigger] ordered[k]).0 <= x.0 by {
                        assert(ordered[k] == (zs@[k], ids@[k]));
                    }
                    assert forall|k: int| j <= k < ordered.len() implies (#[trigger] ordered[k]).0 > x.0 by {
                        assert(ordered[k] == (zs@[k], ids@[k]));
                        assert(ordered[j as int] == (zs@[j as int], ids@[j as int]));
                        assert(zs@[j as int] > z);
                        if k > j {
                            assert(ordered[j as int].0 <= ordered[k].0);
                        }
                    }
                    lemma_orders_insert(before_c, ordered, x, j as int);
                    assert(keep(entries@.take(i as int), pf).push(c).map_values(tz) =~= before_c.push(x));
                }
                let ghost o_old = ordered;
                let ghost z_old = zs@;
                let ghost i_old = ids@;
                zs.insert(j, z);
                ids.insert(j, c.element_id);
                proof {
                    ordered = ordered.insert(j as int, x);
                    assert forall|k: int| 0 <= k < ordered.len() implies (#[trigger] ordered[k]) == (zs@[k], ids@[k]) by {
                        if k < j {
                            assert(ordered[k] == o_old[k] && zs@[k] == z_old[k] && ids@[k] == i_old[k]);
                        } else if k > j {
                            assert(ordered[k] == o_old[k - 1] && zs@[k] == z_old[k - 1] && ids@[k] == i_old[k - 1]);
                        }
                    }
                }
            }
            i = i + 1;
        }
        proof {
            assert(entries@.take(i as int) =~= entries@);
            assert(pf =~= (|c: FocusCandidate| c.focusable));
            assert(focusable_candidates(entries@) =~= keep(entries@, pf).map_values(tz));
            assert(ids@ =~= elements_of(ordered));
            assert(orders_by_z(focusable_candidates(entries@), ordered));
        }
        self.focusable_elements = ids;
    }
}

impl Default for InteractionTracker {
    fn default() -> (t: Self)
        ensures
            t.wf(),
            t.hovered() is None,
            t.pressed() is None,
            t.focused() is None,
            t.states() == Map::<ElementId, InteractionState>::empty(),
            t.focusable() == Seq::<ElementId>::empty(),
            !t.in_window(),
            t.traps() == Seq::<Seq<ElementId>>::empty(),
    {
        Self::new()
    }
}

} // verus!

verus! {

/// Law: with distinct navigable elements, Tab moves focus from the `i`-th
/// to the next one, wrapping to the first, and Shift+Tab to the previous
/// one, wrapping to the last.
pub proof fn law_tab_cycles(t: InteractionTracker, i: int)
    requires
        t.navigable().no_duplicates(),
        0 <= i < t.navigable().len(),
        t.focused() == Some(t.navigable()[i]),
    ensures
        t.next_index() == (i + 1) % (t.navigable().len() as int),
        t.previous_index() == (if i == 0 { t.navigable().len() - 1 } else { i - 1 }),
{
    let nav = t.navigable();
    let x = nav[i];
    assert(forall|j: int| 0 <= j < i ==> nav[j] != x);
    assert(exists|w: int| 0 <= w < nav.len() && nav[w] == x && forall|j: int| 0 <= j < w ==> nav[j] != x);
    let w = choose|w: int| 0 <= w < nav.len() && nav[w] == x && forall|j: int| 0 <= j < w ==> nav[j] != x;
    if w != i {
        if w < i {
            assert(nav[w] != x);
        } else {
            assert(nav[i] != x);
        }
    }
    assert(first_index(nav, x) == i);
}

/// Law: after a focus trap with a focusable element is pushed, the focused
/// element is one of the trap's elements, and navigation cycles through
/// exactly the trap.
pub proof fn law_trap_confines_focus(
    before: InteractionTracker,
    after: InteractionTracker,
    element_ids: Seq<ElementId>,
    events: Seq<EventKind>,
)
    requires
        before.trapped(after, element_ids, events),
        before.trap_of(element_ids).len() > 0,
    ensures
        after.navigable() == before.trap_of(element_ids),
        after.focused() matches Some(f) && after.navigable().contains(f),
{
    let trap = before.trap_of(element_ids);
    assert(after.traps().last() == trap);
    assert(trap.contains(trap[0]));
}

/// Law: moving the hover from `prev` to another element `next` (or to
/// none) unhovers `prev`, hovers `next`, and touches no other element; so
/// if at most `prev` was hovered before, at most `next` is hovered after.
pub proof fn law_hover_moves(
    states: Map<ElementId, InteractionState>,
    prev: Option<ElementId>,
    next: Option<ElementId>,
)
    requires
        prev != next,
    ensures
        prev matches Some(p) ==> (states.contains_key(p) ==> {
            let after = rehovered_states(states, prev, next);
            &&& after.contains_key(p)
            &&& !after[p].is_hovered
            &&& after[p].is_pressed == states[p].is_pressed
            &&& after[p].is_focused == states[p].is_focused
        }),
        next matches Some(n) ==> rehovered_states(states, prev, next).contains_key(n)
            && rehovered_states(states, prev, next)[n].is_hovered,
        forall|e: ElementId| Some(e) != prev && Some(e) != next ==> {
            &&& rehovered_states(states, prev, next).contains_key(e) == states.contains_key(e)
            &&& #[trigger] rehovered_states(states, prev, next)[e] == states[e]
        },
        (forall|e: ElementId| states.contains_key(e) && Some(e) != prev ==> !(#[trigger] states[e]).is_hovered) ==> (
            forall|e: ElementId| rehovered_states(states, prev, next).contains_key(e) && Some(e) != next
                ==> !(#[trigger] rehovered_states(states, prev, next)[e]).is_hovered),
{
}

} // verus!
