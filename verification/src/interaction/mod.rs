//! Interaction: element identity and state, keyboard shortcuts, the element
//! registry used for event routing, and focus navigation.

pub mod shortcuts;
pub mod standard;
pub mod element_map;
pub mod registry;
pub mod tracker;
pub mod drag_drop;
pub mod hit_test;

use vstd::prelude::*;

verus! {

/// Unique identifier for interactive elements.
#[derive(Debug, Clone, Copy, PartialEq, Eq, Hash, Structural)]
pub struct ElementId(pub u64);

impl ElementId {
    /// An element id with the given value.
    pub fn new(id: u64) -> (r: Self)
        ensures
            r.0 == id,
    {
        ElementId(id)
    }
}

/// Interaction state of one element.
#[derive(Debug, Clone, Copy, PartialEq, Eq, Structural)]
pub struct InteractionState {
    pub is_hovered: bool,
    pub is_pressed: bool,
    pub is_focused: bool,
}

impl InteractionState {
    /// Neither hovered, pressed nor focused.
    pub fn new() -> (s: Self)
        ensures
            !s.is_hovered && !s.is_pressed && !s.is_focused,
    {
        InteractionState { is_hovered: false, is_pressed: false, is_focused: false }
    }
}

impl Default for InteractionState {
    fn default() -> (s: Self)
        ensures
            !s.is_hovered && !s.is_pressed && !s.is_focused,
    {
        Self::new()
    }
}

/// Whether `v` holds `e`.
pub fn contains_element(v: &[ElementId], e: ElementId) -> (r: bool)
    ensures
        r == v@.contains(e),
{
    let mut i: usize = 0;
    while i < v.len()
        invariant
            i <= v@.len(),
            forall|j: int| 0 <= j < i ==> v@[j] != e,
        decreases v@.len() - i,
    {
        if v[i] == e {
            assert(v@[i as int] == e);
            return true;
        }
        i = i + 1;
    }
    false
}

} // verus!
