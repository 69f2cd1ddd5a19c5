//! List selection: which items of a list are selected, hovered, and
//! whether the list is loading.

use vstd::prelude::*;
use std::collections::HashSet;
use crate::interaction::ElementId;

verus! {

/// How many items of a list can be selected.
#[derive(Debug, Clone, Copy, PartialEq, Eq, Structural)]
pub enum SelectionMode {
    /// No selection allowed
    NoSelection,
    /// Only one item can be selected at a time
    Single,
    /// Multiple items can be selected
    Multi,
}

impl Default for SelectionMode {
    fn default() -> (m: Self)
        ensures
            m == SelectionMode::NoSelection,
    {
        SelectionMode::NoSelection
    }
}

/// State of a list.
#[derive(Debug)]
pub struct ListState {
    /// Indices of the selected items
    pub selected: HashSet<usize>,
    /// Index of the hovered item, if any
    pub hovered: Option<usize>,
    /// Whether the list is loading
    pub is_loading: bool,
}

/// The selection after item `index` was toggled in `mode`.
pub open spec fn toggled(selected: Set<usize>, index: usize, mode: SelectionMode) -> Set<usize> {
    match mode {
        SelectionMode::NoSelection => selected,
        SelectionMode::Single => if selected.contains(index) {
            Set::empty()
        } else {
            Set::empty().insert(index)
        },
        SelectionMode::Multi => if selected.contains(index) {
            selected.remove(index)
        } else {
            selected.insert(index)
        },
    }
}

/// The selection after item `index` was selected in `mode`.
pub open spec fn selected_with(selected: Set<usize>, index: usize, mode: SelectionMode) -> Set<usize> {
    match mode {
        SelectionMode::NoSelection => selected,
        SelectionMode::Single => Set::empty().insert(index),
        SelectionMode::Multi => selected.insert(index),
    }
}

impl Default for ListState {
    fn default() -> (s: Self)
        ensures
            s.selected@ == Set::<usize>::empty(),
            s.hovered is None,
            !s.is_loading,
    {
        ListState { selected: HashSet::new(), hovered: None, is_loading: false }
    }
}

impl ListState {
    /// Nothing selected or hovered, not loading.
    pub fn new() -> (s: Self)
        ensures
            s.selected@ == Set::<usize>::empty(),
            s.hovered is None,
            !s.is_loading,
    {
        Self::default()
    }

    /// Whether item `index` is selected.
    pub fn is_selected(&self, index: usize) -> (r: bool)
        ensures
            r == self.selected@.contains(index),
    {
        self.selected.contains(&index)
    }

    /// Toggle item `index`: in single mode it becomes the only selected item,
    /// or nothing is selected if it was; in multi mode it joins or leaves the
    /// selection; in no-selection mode nothing changes.
    pub fn toggle_selection(&mut self, index: usize, mode: SelectionMode)
        ensures
            final(self).selected@ == toggled(old(self).selected@, index, mode),
            final(self).hovered == old(self).hovered,
            final(self).is_loading == old(self).is_loading,
    {
        match mode {
            SelectionMode::NoSelection => {},
            SelectionMode::Single => {
                if self.selected.contains(&index) {
                    self.selected.clear();
                } else {
                    self.selected.clear();
                    self.selected.insert(index);
                }
            },
            SelectionMode::Multi => {
                if self.selected.contains(&index) {
                    self.selected.remove(&index);
                } else {
                    self.selected.insert(index);
                }
            },
        }
    }

    /// Select item `index`: in single mode it becomes the only selected item,
    /// in multi mode it joins the selection; in no-selection mode nothing
    /// changes.
    pub fn select(&mut self, index: usize, mode: SelectionMode)
        ensures
            final(self).selected@ == selected_with(old(self).selected@, index, mode),
            final(self).hovered == old(self).hovered,
            final(self).is_loading == old(self).is_loading,
    {
        match mode {
            SelectionMode::NoSelection => {},
            SelectionMode::Single => {
                self.selected.clear();
                self.selected.insert(index);
            },
            SelectionMode::Multi => {
                self.selected.insert(index);
            },
        }
    }

    /// Deselect item `index`.
    pub fn deselect(&mut self, index: usize)
        ensures
            final(self).selected@ == old(self).selected@.remove(index),
            final(self).hovered == old(self).hovered,
            final(self).is_loading == old(self).is_loading,
    {
        self.selected.remove(&index);
    }

    /// Deselect every item.
    pub fn clear_selection(&mut self)
        ensures
            final(self).selected@ == Set::<usize>::empty(),
            final(self).hovered == old(self).hovered,
            final(self).is_loading == old(self).is_loading,
    {
        self.selected.clear();
    }
}

/// Which of a list's backgrounds an item is painted with.
#[derive(Debug, Clone, Copy, PartialEq, Eq, Structural)]
pub enum ItemBackground {
    /// The background of selected items
    Selected,
    /// The background of the hovered item
    Hovered,
    /// The background of other items
    Plain,
}

/// The background of item `index` of a list in `state`: a selected item
/// takes the selected background, even when hovered; else the hovered item
/// takes the hovered one.
pub fn item_background(state: &ListState, index: usize) -> (r: ItemBackground)
    ensures
        r == (if state.selected@.contains(index) {
            ItemBackground::Selected
        } else if state.hovered == Some(index) {
            ItemBackground::Hovered
        } else {
            ItemBackground::Plain
        }),
{
    if state.is_selected(index) {
        ItemBackground::Selected
    } else if state.hovered == Some(index) {
        ItemBackground::Hovered
    } else {
        ItemBackground::Plain
    }
}

/// The element id of the action button `action_index` of the list item
/// with element id `item`: the item's id advanced (wrapping) by the
/// action's index plus 1000.
pub fn action_button_id(item: ElementId, action_index: usize) -> (r: ElementId)
    requires
        action_index + 1000 <= usize::MAX,
    ensures
        r.0 == item.0.wrapping_add((action_index + 1000) as u64),
{
    let offset: usize = action_index + 1000;
    ElementId(item.0.wrapping_add(offset as u64))
}

/// Toggling an item twice in multi mode gives back the selection.
pub proof fn law_multi_toggle_twice(selected: Set<usize>, index: usize)
    ensures
        toggled(toggled(selected, index, SelectionMode::Multi), index, SelectionMode::Multi) == selected,
{
    assert(toggled(toggled(selected, index, SelectionMode::Multi), index, SelectionMode::Multi) =~= selected);
}

/// In single mode at most one item is selected after a toggle or a select,
/// whatever was selected before.
pub proof fn law_single_mode_selects_at_most_one(selected: Set<usize>, index: usize)
    ensures
        toggled(selected, index, SelectionMode::Single).len() <= 1,
        toggled(selected, index, SelectionMode::Single).finite(),
        selected_with(selected, index, SelectionMode::Single) == set![index],
{
    assert(Set::<usize>::empty().insert(index) =~= set![index]);
    assert(set![index].len() == 1) by {
        assert(set![index] =~= Set::<usize>::empty().insert(index));
    }
}

} // verus!
