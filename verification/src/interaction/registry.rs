//! Registry of interactive elements: their handlers, their interaction
//! state, and the focusable elements in registration order.
//!
//! Routing an event updates the target element's hover, press and focus
//! state and hands the event to the target's handlers.

use vstd::prelude::*;
use crate::interaction::{contains_element, ElementId, InteractionState};
use crate::interaction::element_map::ElementMap;

verus! {

/// What routing reads of an interaction event: its kind and its target element.
#[derive(Debug, Clone, Copy, PartialEq, Eq, Structural)]
pub enum EventKind {
    MouseEnter(ElementId),
    MouseLeave(ElementId),
    MouseMove(ElementId),
    MouseDown(ElementId),
    MouseUp(ElementId),
    Click(ElementId),
    ScrollWheel(ElementId),
    KeyDown(ElementId),
    KeyUp(ElementId),
    FocusIn(ElementId),
    FocusOut(ElementId),
    /// Handled at the application level, not by an element
    ShortcutTriggered,
    /// Handled by the drag-and-drop system, not by an element
    DragDrop,
}

/// The element an event is routed to, if any.
pub open spec fn event_target(e: EventKind) -> Option<ElementId> {
    match e {
        EventKind::MouseEnter(id) => Some(id),
        EventKind::MouseLeave(id) => Some(id),
        EventKind::MouseMove(id) => Some(id),
        EventKind::MouseDown(id) => Some(id),
        EventKind::MouseUp(id) => Some(id),
        EventKind::Click(id) => Some(id),
        EventKind::ScrollWheel(id) => Some(id),
        EventKind::KeyDown(id) => Some(id),
        EventKind::KeyUp(id) => Some(id),
        EventKind::FocusIn(id) => Some(id),
        EventKind::FocusOut(id) => Some(id),
        EventKind::ShortcutTriggered => None,
        EventKind::DragDrop => None,
    }
}

/// An element's state after it received `e`.
pub open spec fn state_after(s: InteractionState, e: EventKind) -> InteractionState {
    match e {
        EventKind::MouseEnter(_) => InteractionState { is_hovered: true, ..s },
        EventKind::MouseLeave(_) => InteractionState { is_hovered: false, ..s },
        EventKind::MouseDown(_) => InteractionState { is_pressed: true, ..s },
        EventKind::MouseUp(_) => InteractionState { is_pressed: false, ..s },
        EventKind::FocusIn(_) => InteractionState { is_focused: true, ..s },
        EventKind::FocusOut(_) => InteractionState { is_focused: false, ..s },
        _ => s,
    }
}

impl EventKind {
    /// The element this event is routed to, if any.
    pub fn target(&self) -> (r: Option<ElementId>)
        ensures
            r == event_target(*self),
    {
        match self {
            EventKind::MouseEnter(id) => Some(*id),
            EventKind::MouseLeave(id) => Some(*id),
            EventKind::MouseMove(id) => Some(*id),
            EventKind::MouseDown(id) => Some(*id),
            EventKind::MouseUp(id) => Some(*id),
            EventKind::Click(id) => Some(*id),
            EventKind::ScrollWheel(id) => Some(*id),
            EventKind::KeyDown(id) => Some(*id),
            EventKind::KeyUp(id) => Some(*id),
            EventKind::FocusIn(id) => Some(*id),
            EventKind::FocusOut(id) => Some(*id),
            EventKind::ShortcutTriggered => None,
            EventKind::DragDrop => None,
        }
    }
}

/// Apply the state change of `e` to `s`.
fn apply_event(s: InteractionState, e: &EventKind) -> (r: InteractionState)
    ensures
        r == state_after(s, *e),
{
    let mut s = s;
    match e {
        EventKind::MouseEnter(_) => { s.is_hovered = true; },
        EventKind::MouseLeave(_) => { s.is_hovered = false; },
        EventKind::MouseDown(_) => { s.is_pressed = true; },
        EventKind::MouseUp(_) => { s.is_pressed = false; },
        EventKind::FocusIn(_) => { s.is_focused = true; },
        EventKind::FocusOut(_) => { s.is_focused = false; },
        _ => {},
    }
    s
}

/// Hand `event` to the element handlers `handlers` through `deliver`.
///
/// Calls the caller's `deliver` through `FnMut::call_mut`, which runs it
/// once with these arguments: the contract claims only that the call was
/// made, so that `deliver`'s own postcondition held of its state before the
/// call; what `deliver` does beyond that is its own.
#[verifier::external_body]
fn deliver_event<H, F: FnMut(&H, &EventKind)>(deliver: &mut F, handlers: &H, event: &EventKind)
    requires
        call_requires(*old(deliver), (handlers, event)),
    ensures
        call_ensures(*old(deliver), (handlers, event), ()),
{
    deliver(handlers, event)
}

/// Registry for the interactive elements of a UI layer; `H` is the type of
/// an element's event handlers.
pub struct ElementRegistry<H> {
    handlers: ElementMap<H>,
    states: ElementMap<InteractionState>,
    focusable_elements: Vec<ElementId>,
}

impl<H> ElementRegistry<H> {
    /// Handlers by element.
    pub closed spec fn handlers(&self) -> Map<ElementId, H> {
        self.handlers@
    }

    /// Interaction state by element.
    pub closed spec fn states(&self) -> Map<ElementId, InteractionState> {
        self.states@
    }

    /// Focusable elements in registration (tab) order.
    pub closed spec fn focusable(&self) -> Seq<ElementId> {
        self.focusable_elements@
    }

    /// The handlers of the element `e` is routed to, if it has any.
    pub open spec fn target_handlers(&self, e: EventKind) -> Option<H> {
        match event_target(e) {
            Some(id) => if self.handlers().contains_key(id) {
                Some(self.handlers()[id])
            } else {
                None
            },
            None => None,
        }
    }

    /// Invariant: the maps are well formed and no element is focusable twice.
    pub closed spec fn wf(&self) -> bool {
        &&& self.handlers.wf()
        &&& self.states.wf()
        &&& self.focusable_elements@.no_duplicates()
    }

    /// An empty registry.
    pub fn new() -> (r: Self)
        ensures
            r.wf(),
            r.handlers() == Map::<ElementId, H>::empty(),
            r.states() == Map::<ElementId, InteractionState>::empty(),
            r.focusable() == Seq::<ElementId>::empty(),
    {
        ElementRegistry { handlers: ElementMap::new(), states: ElementMap::new(), focusable_elements: Vec::new() }
    }

    /// Add `id` to the focusable elements unless it is already there.
    pub fn register_focusable(&mut self, id: ElementId)
        requires
            old(self).wf(),
        ensures
            final(self).wf(),
            final(self).focusable() == (if old(self).focusable().contains(id) {
                old(self).focusable()
            } else {
                old(self).focusable().push(id)
            }),
            final(self).handlers() == old(self).handlers(),
            final(self).states() == old(self).states(),
    {
        if !contains_element(self.focusable_elements.as_slice(), id) {
            self.focusable_elements.push(id);
        }
    }

    /// The focusable elements in registration order.
    pub fn focusable_elements(&self) -> (r: &[ElementId])
        ensures
            r@ == self.focusable(),
    {
        self.focusable_elements.as_slice()
    }

    /// Register `handlers` for `id`, replacing any previous ones; the
    /// element's interaction state is reset.
    pub fn register(&mut self, id: ElementId, handlers: H)
        requires
            old(self).wf(),
        ensures
            final(self).wf(),
            final(self).handlers() == old(self).handlers().insert(id, handlers),
            final(self).states() == old(self).states().insert(id, InteractionState { is_hovered: false, is_pressed: false, is_focused: false }),
            final(self).focusable() == old(self).focusable(),
    {
        self.handlers.insert(id, handlers);
        self.states.insert(id, InteractionState::default());
    }

    /// Forget `id`'s handlers and state.
    pub fn unregister(&mut self, id: ElementId)
        requires
            old(self).wf(),
        ensures
            final(self).wf(),
            final(self).handlers() == old(self).handlers().remove(id),
            final(self).states() == old(self).states().remove(id),
            final(self).focusable() == old(self).focusable(),
    {
        self.handlers.remove(id);
        self.states.remove(id);
    }

    /// The interaction state of `id`.
    pub fn get_state(&self, id: ElementId) -> (r: Option<&InteractionState>)
        requires
            self.wf(),
        ensures
            r is Some <==> self.states().contains_key(id),
            r is Some ==> *(r->0) == self.states()[id],
    {
        self.states.get(id)
    }

    /// The handlers of `id`.
    pub fn handler(&self, id: ElementId) -> (r: Option<&H>)
        requires
            self.wf(),
        ensures
            r is Some <==> self.handlers().contains_key(id),
            r is Some ==> *(r->0) == self.handlers()[id],
    {
        self.handlers.get(id)
    }

    /// Replace the interaction state of a registered `id`.
    pub fn update_state(&mut self, id: ElementId, state: InteractionState)
        requires
            old(self).wf(),
        ensures
            final(self).wf(),
            final(self).states() == (if old(self).states().contains_key(id) {
                old(self).states().insert(id, state)
            } else {
                old(self).states()
            }),
            final(self).handlers() == old(self).handlers(),
            final(self).focusable() == old(self).focusable(),
    {
        if self.states.contains_key(id) {
            self.states.insert(id, state);
        }
    }

    /// Route `event`: update its target's state, and report whether an
    /// element handler should receive it (events without a target count as
    /// handled).
    pub fn dispatch_event(&mut self, event: &EventKind) -> (handled: bool)
        requires
            old(self).wf(),
        ensures
            final(self).wf(),
            final(self).handlers() == old(self).handlers(),
            final(self).focusable() == old(self).focusable(),
            event_target(*event) is None ==> handled && final(self).states() == old(self).states(),
            event_target(*event) matches Some(id) ==> {
                &&& handled == old(self).handlers().contains_key(id)
                &&& final(self).states() == (if old(self).states().contains_key(id) {
                    old(self).states().insert(id, state_after(old(self).states()[id], *event))
                } else {
                    old(self).states()
                })
            },
            event_target(*event) matches Some(id) ==> (old(self).states().contains_key(id) ==> {
                let b = old(self).states()[id];
                let a = final(self).states()[id];
                &&& final(self).states().contains_key(id)
                &&& a.is_pressed == (if *event is MouseDown { true } else if *event is MouseUp { false } else { b.is_pressed })
                &&& a.is_hovered == (if *event is MouseEnter { true } else if *event is MouseLeave { false } else { b.is_hovered })
                &&& a.is_focused == (if *event is FocusIn { true } else if *event is FocusOut { false } else { b.is_focused })
            }),
    {
        match event.target() {
            None => true,
            Some(id) => {
                let current = match self.states.get(id) {
                    Some(s) => Some(*s),
                    None => None,
                };
                if let Some(s) = current {
                    self.states.insert(id, apply_event(s, event));
                }
                self.handlers.contains_key(id)
            },
        }
    }

    /// Route `event` as `dispatch_event` does, then hand it, together with
    /// its target's handlers, to `deliver`: exactly once when the target has
    /// handlers, never otherwise.  Returns what `dispatch_event` returns.
    pub fn dispatch_event_to<F: FnMut(&H, &EventKind)>(&mut self, event: &EventKind, deliver: &mut F) -> (handled: bool)
        requires
            old(self).wf(),
            old(self).target_handlers(*event) matches Some(h) ==> call_requires(*old(deliver), (&h, event)),
        ensures
            old(self).target_handlers(*event) matches Some(h) ==> call_ensures(*old(deliver), (&h, event), ()),
            old(self).target_handlers(*event) is None ==> *final(deliver) == *old(deliver),
            final(self).wf(),
            final(self).handlers() == old(self).handlers(),
            final(self).focusable() == old(self).focusable(),
            event_target(*event) is None ==> handled && final(self).states() == old(self).states(),
            event_target(*event) matches Some(id) ==> {
                &&& handled == old(self).handlers().contains_key(id)
                &&& final(self).states() == (if old(self).states().contains_key(id) {
                    old(self).states().insert(id, state_after(old(self).states()[id], *event))
                } else {
                    old(self).states()
                })
            },
            event_target(*event) matches Some(id) ==> (old(self).states().contains_key(id) ==> {
                let b = old(self).states()[id];
                let a = final(self).states()[id];
                &&& final(self).states().contains_key(id)
                &&& a.is_pressed == (if *event is MouseDown { true } else if *event is MouseUp { false } else { b.is_pressed })
                &&& a.is_hovered == (if *event is MouseEnter { true } else if *event is MouseLeave { false } else { b.is_hovered })
                &&& a.is_focused == (if *event is FocusIn { true } else if *event is FocusOut { false } else { b.is_focused })
            }),
    {
        let handled = self.dispatch_event(event);
        if let Some(id) = event.target() {
            if let Some(h) = self.handlers.get(id) {
                deliver_event(deliver, h, event);
            }
        }
        handled
    }

    /// Forget every element.
    pub fn clear(&mut self)
        requires
            old(self).wf(),
        ensures
            final(self).wf(),
            final(self).handlers() == Map::<ElementId, H>::empty(),
            final(self).states() == Map::<ElementId, InteractionState>::empty(),
            final(self).focusable() == Seq::<ElementId>::empty(),
    {
        self.handlers.clear();
        self.states.clear();
        self.focusable_elements.clear();
    }

    /// Whether `id` has handlers.
    pub fn is_registered(&self, id: ElementId) -> (r: bool)
        requires
            self.wf(),
        ensures
            r == self.handlers().contains_key(id),
    {
        self.handlers.contains_key(id)
    }

    /// Number of elements with handlers.
    pub fn len(&self) -> (n: usize)
        requires
            self.wf(),
        ensures
            n == self.handlers().len(),
    {
        self.handlers.len()
    }

    /// Whether no element has handlers.
    pub fn is_empty(&self) -> (r: bool)
        requires
            self.wf(),
        ensures
            r == (self.handlers().len() == 0),
    {
        self.handlers.len() == 0
    }
}

impl<H> Default for ElementRegistry<H> {
    fn default() -> (r: Self)
        ensures
            r.wf(),
            r.handlers() == Map::<ElementId, H>::empty(),
            r.states() == Map::<ElementId, InteractionState>::empty(),
            r.focusable() == Seq::<ElementId>::empty(),
    {
        Self::new()
    }
}

/// Law: what an event does to its element's state, flag by flag.  A press
/// sets `is_pressed` and a release clears it; entering sets `is_hovered`
/// and leaving clears it; focusing in sets `is_focused` and focusing out
/// clears it; nothing else changes a flag.  So a press followed by a
/// release leaves the element unpressed, whatever it was before.
pub proof fn law_event_effects(s: InteractionState, e: EventKind, id: ElementId)
    ensures
        state_after(s, e).is_pressed == (if e is MouseDown { true } else if e is MouseUp { false } else { s.is_pressed }),
        state_after(s, e).is_hovered == (if e is MouseEnter { true } else if e is MouseLeave { false } else { s.is_hovered }),
        state_after(s, e).is_focused == (if e is FocusIn { true } else if e is FocusOut { false } else { s.is_focused }),
        !state_after(state_after(s, EventKind::MouseDown(id)), EventKind::MouseUp(id)).is_pressed,
        !state_after(s, EventKind::MouseUp(id)).is_pressed,
{
}

} // verus!
