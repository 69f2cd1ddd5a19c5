//! Dropdown selection: the open/closed state, the options, keyboard
//! navigation and type-ahead search.

use vstd::prelude::*;
use std::fmt::Display;
use std::time::Instant;
use crate::clock::{now, duration_since, duration_millis};
use crate::layer::Key;
use crate::text::{contains_str, has_prefix, is_prefix, lowercase, occurs_in, push_char, to_lowercase};

verus! {

/// State of a dropdown.
#[derive(Debug, Clone)]
pub struct DropdownState {
    /// Whether the option list is open
    pub is_open: bool,
    /// Index of the selected option, if any
    pub selected_index: Option<usize>,
    /// Index of the option highlighted for keyboard navigation, if any
    pub highlighted_index: Option<usize>,
    /// Text typed for type-ahead search
    pub search_text: String,
    /// When the last search character was typed
    pub last_search_time: Option<Instant>,
}

/// `after` is `before` closed: the list is shut and the search text
/// emptied; nothing else changes.
pub open spec fn closed_state(before: DropdownState, after: DropdownState) -> bool {
    &&& !after.is_open
    &&& after.search_text@ == Seq::<char>::empty()
    &&& after.selected_index == before.selected_index
    &&& after.highlighted_index == before.highlighted_index
    &&& after.last_search_time == before.last_search_time
}

/// `after` is `before` with only its highlight set to `h`.
pub open spec fn highlighted_as(before: DropdownState, after: DropdownState, h: Option<usize>) -> bool {
    &&& after.is_open == before.is_open
    &&& after.selected_index == before.selected_index
    &&& after.highlighted_index == h
    &&& after.search_text@ == before.search_text@
    &&& after.last_search_time == before.last_search_time
}

impl Default for DropdownState {
    fn default() -> (s: Self)
        ensures
            !s.is_open,
            s.selected_index is None,
            s.highlighted_index is None,
            s.search_text@ == Seq::<char>::empty(),
            s.last_search_time is None,
    {
        DropdownState {
            is_open: false,
            selected_index: None,
            highlighted_index: None,
            search_text: String::new(),
            last_search_time: None,
        }
    }
}

impl DropdownState {
    /// A closed dropdown with nothing selected.
    pub fn new() -> (s: Self)
        ensures
            !s.is_open,
            s.selected_index is None,
            s.highlighted_index is None,
            s.search_text@ == Seq::<char>::empty(),
            s.last_search_time is None,
    {
        Self::default()
    }

    /// Open or close the list: opening highlights the selected option,
    /// closing empties the search text.
    pub fn toggle(&mut self)
        ensures
            !old(self).is_open ==> {
                &&& final(self).is_open
                &&& final(self).highlighted_index == old(self).selected_index
                &&& final(self).selected_index == old(self).selected_index
                &&& final(self).search_text@ == old(self).search_text@
                &&& final(self).last_search_time == old(self).last_search_time
            },
            old(self).is_open ==> closed_state(*old(self), *final(self)),
    {
        self.is_open = !self.is_open;
        if self.is_open {
            self.highlighted_index = self.selected_index;
        } else {
            self.search_text = String::new();
        }
    }

    /// Close the list and empty the search text.
    pub fn close(&mut self)
        ensures
            closed_state(*old(self), *final(self)),
    {
        self.is_open = false;
        self.search_text = String::new();
    }

    /// Select option `index` and close the list.
    pub fn select(&mut self, index: usize)
        ensures
            !final(self).is_open,
            final(self).selected_index == Some(index),
            final(self).search_text@ == Seq::<char>::empty(),
            final(self).highlighted_index == old(self).highlighted_index,
            final(self).last_search_time == old(self).last_search_time,
    {
        self.selected_index = Some(index);
        self.close();
    }
}

/// One option of a dropdown.
#[derive(Debug, Clone)]
pub struct DropdownOption<T> {
    /// The value of the option
    pub value: T,
    /// Label shown in place of the value's text, if any
    pub label: Option<String>,
    /// Whether the option can be chosen
    pub disabled: bool,
    /// Group the option belongs to, if any
    pub group: Option<String>,
}

impl<T> DropdownOption<T> {
    /// An enabled option for `value`, without label or group.
    pub fn new(value: T) -> (o: Self)
        ensures
            o.value == value,
            o.label is None,
            !o.disabled,
            o.group is None,
    {
        DropdownOption { value, label: None, disabled: false, group: None }
    }

    /// Set the label.
    pub fn label(self, label: &str) -> (o: Self)
        ensures
            o.value == self.value,
            o.label is Some,
            o.label->0@ == label@,
            o.disabled == self.disabled,
            o.group == self.group,
    {
        DropdownOption { label: Some(label.to_owned()), ..self }
    }

    /// Mark the option disabled.
    pub fn disabled(self) -> (o: Self)
        ensures
            o.value == self.value,
            o.label == self.label,
            o.disabled,
            o.group == self.group,
    {
        DropdownOption { disabled: true, ..self }
    }

    /// Set the group.
    pub fn group(self, group: &str) -> (o: Self)
        ensures
            o.value == self.value,
            o.label == self.label,
            o.disabled == self.disabled,
            o.group is Some,
            o.group->0@ == group@,
    {
        DropdownOption { group: Some(group.to_owned()), ..self }
    }

    /// The text shown for the option: its label, else the value's text.
    pub fn display_text(&self) -> (s: String)
        where T: Display,
        ensures
            self.label matches Some(l) ==> s@ == l@,
    {
        match &self.label {
            Some(l) => l.clone(),
            None => self.value.to_string(),
        }
    }
}

/// Whether option `i` exists and can be chosen.
pub open spec fn enabled_at<T>(options: Seq<DropdownOption<T>>, i: int) -> bool {
    0 <= i < options.len() && !options[i].disabled
}

/// The first option at or after `k` that can be chosen.
pub open spec fn first_enabled_from<T>(options: Seq<DropdownOption<T>>, k: int) -> Option<int>
    decreases options.len() - k,
{
    if k < 0 || k >= options.len() {
        None
    } else if !options[k].disabled {
        Some(k)
    } else {
        first_enabled_from(options, k + 1)
    }
}

/// The last option before `k` that can be chosen.
pub open spec fn last_enabled_before<T>(options: Seq<DropdownOption<T>>, k: int) -> Option<int>
    decreases k,
{
    if k <= 0 {
        None
    } else if enabled_at(options, k - 1) {
        Some(k - 1)
    } else {
        last_enabled_before(options, k - 1)
    }
}

/// The highlight after a move: the found option, else the old highlight.
pub open spec fn moved_to(found: Option<int>, old_highlight: Option<usize>) -> Option<usize> {
    match found {
        Some(i) => Some(i as usize),
        None => old_highlight,
    }
}

/// `after` is the state `before` after key `key` reached a dropdown with
/// `options`.
pub open spec fn after_key<T>(options: Seq<DropdownOption<T>>, key: Key, before: DropdownState, after: DropdownState) -> bool {
    let current = match before.highlighted_index { Some(h) => h as int, None => 0 };
    if !before.is_open {
        if key == Key::Space || key == Key::Return {
            &&& after.is_open
            &&& after.highlighted_index == before.selected_index
            &&& after.selected_index == before.selected_index
            &&& after.search_text@ == before.search_text@
            &&& after.last_search_time == before.last_search_time
        } else {
            highlighted_as(before, after, before.highlighted_index)
        }
    } else {
        match key {
            Key::Escape => closed_state(before, after),
            Key::Return => match before.highlighted_index {
                Some(i) if enabled_at(options, i as int) => {
                    &&& !after.is_open
                    &&& after.selected_index == Some(i)
                    &&& after.search_text@ == Seq::<char>::empty()
                    &&& after.highlighted_index == before.highlighted_index
                    &&& after.last_search_time == before.last_search_time
                },
                _ => highlighted_as(before, after, before.highlighted_index),
            },
            Key::Up => highlighted_as(before, after, moved_to(last_enabled_before(options, current), before.highlighted_index)),
            Key::Down => highlighted_as(
                before,
                after,
                if current < options.len() - 1 {
                    moved_to(first_enabled_from(options, current + 1), before.highlighted_index)
                } else {
                    before.highlighted_index
                },
            ),
            Key::Home => highlighted_as(before, after, moved_to(first_enabled_from(options, 0), before.highlighted_index)),
            Key::End => highlighted_as(
                before,
                after,
                moved_to(last_enabled_before(options, options.len() as int), before.highlighted_index),
            ),
            _ => highlighted_as(before, after, before.highlighted_index),
        }
    }
}

proof fn lemma_first_enabled_bounds<T>(options: Seq<DropdownOption<T>>, k: int)
    ensures
        first_enabled_from(options, k) matches Some(i) ==> k <= i < options.len() && enabled_at(options, i),
    decreases options.len() - k,
{
    if 0 <= k < options.len() && options[k].disabled {
        lemma_first_enabled_bounds(options, k + 1);
    }
}

proof fn lemma_last_enabled_bounds<T>(options: Seq<DropdownOption<T>>, k: int)
    ensures
        last_enabled_before(options, k) matches Some(i) ==> 0 <= i < k && enabled_at(options, i),
    decreases k,
{
    if k > 0 && !enabled_at(options, k - 1) {
        lemma_last_enabled_bounds(options, k - 1);
    }
}

/// The last option before `k` that can be chosen.
fn find_last_enabled_before<T>(options: &[DropdownOption<T>], k: usize) -> (r: Option<usize>)
    ensures
        r == (match last_enabled_before(options@, k as int) {
            Some(i) => Some(i as usize),
            None => None::<usize>,
        }),
{
    let mut i = k;
    while i > 0
        invariant
            i <= k,
            last_enabled_before(options@, k as int) == last_enabled_before(options@, i as int),
        decreases i,
    {
        if i - 1 < options.len() && !options[i - 1].disabled {
            return Some(i - 1);
        }
        i = i - 1;
    }
    None
}

/// The first option at or after `k` that can be chosen.
fn find_first_enabled_from<T>(options: &[DropdownOption<T>], k: usize) -> (r: Option<usize>)
    ensures
        r == (match first_enabled_from(options@, k as int) {
            Some(i) => Some(i as usize),
            None => None::<usize>,
        }),
{
    let mut i = k;
    while i < options.len()
        invariant
            k <= i,
            first_enabled_from(options@, k as int) == first_enabled_from(options@, i as int),
        decreases options@.len() - i,
    {
        if !options[i].disabled {
            return Some(i);
        }
        i = i + 1;
    }
    None
}

/// React to key `key` on a dropdown with `options`.  A closed dropdown opens
/// on Space or Return.  An open one closes on Escape, selects the highlighted
/// option on Return when it can be chosen, moves the highlight to the
/// previous or next option that can be chosen on Up and Down, and to the
/// first or last such option on Home and End.  Returns the index newly
/// selected, for the dropdown's change handler.
pub fn handle_key<T>(options: &[DropdownOption<T>], key: Key, state: &mut DropdownState) -> (selected: Option<usize>)
    ensures
        after_key(options@, key, *old(state), *final(state)),
        selected == (if old(state).is_open && key == Key::Return {
            match old(state).highlighted_index {
                Some(i) if enabled_at(options@, i as int) => Some(i),
                _ => None::<usize>,
            }
        } else {
            None::<usize>
        }),
{
    if !state.is_open {
        if key == Key::Space || key == Key::Return {
            state.toggle();
        }
        return None;
    }
    let current: usize = match state.highlighted_index {
        Some(h) => h,
        None => 0,
    };
    match key {
        Key::Escape => {
            state.close();
            None
        },
        Key::Return => {
            match state.highlighted_index {
                Some(idx) => {
                    if idx < options.len() && !options[idx].disabled {
                        state.select(idx);
                        Some(idx)
                    } else {
                        None
                    }
                },
                None => None,
            }
        },
        Key::Up => {
            let found = find_last_enabled_before(options, current);
            if let Some(i) = found {
                state.highlighted_index = Some(i);
            }
            None
        },
        Key::Down => {
            let max = options.len().saturating_sub(1);
            if current < max {
                let found = find_first_enabled_from(options, current + 1);
                if let Some(i) = found {
                    state.highlighted_index = Some(i);
                }
            }
            None
        },
        Key::Home => {
            let found = find_first_enabled_from(options, 0);
            if let Some(i) = found {
                state.highlighted_index = Some(i);
            }
            None
        },
        Key::End => {
            let found = find_last_enabled_before(options, options.len());
            if let Some(i) = found {
                state.highlighted_index = Some(i);
            }
            None
        },
        _ => None,
    }
}

/// `raw` holds a text for each option, the label for each labelled one.
pub open spec fn texts_agree<T>(options: Seq<DropdownOption<T>>, raw: Seq<Seq<char>>) -> bool {
    &&& raw.len() == options.len()
    &&& forall|i: int| 0 <= i < options.len() ==> (#[trigger] options[i].label matches Some(l) ==> raw[i] == l@)
}

/// The views of `texts`.
pub open spec fn views(texts: Seq<String>) -> Seq<Seq<char>> {
    texts.map_values(|t: String| t@)
}

/// The lowercase forms of `raw`.
pub open spec fn lowered(raw: Seq<Seq<char>>) -> Seq<Seq<char>> {
    raw.map_values(|t: Seq<char>| lowercase(t))
}

/// The first option at or after `k` that can be chosen and whose text in
/// `texts` starts with `key`.
pub open spec fn first_prefix_match<T>(options: Seq<DropdownOption<T>>, texts: Seq<Seq<char>>, key: Seq<char>, k: int) -> Option<int>
    decreases options.len() - k,
{
    if k < 0 || k >= options.len() || k >= texts.len() {
        None
    } else if !options[k].disabled && is_prefix(key, texts[k]) {
        Some(k)
    } else {
        first_prefix_match(options, texts, key, k + 1)
    }
}

/// The indices below `n` whose text in `texts` contains `key`, in order.
pub open spec fn matching_indices(texts: Seq<Seq<char>>, key: Seq<char>, n: int) -> Seq<usize>
    decreases n,
{
    if n <= 0 {
        Seq::empty()
    } else if occurs_in(key, texts[n - 1]) {
        matching_indices(texts, key, n - 1).push((n - 1) as usize)
    } else {
        matching_indices(texts, key, n - 1)
    }
}

/// The display texts of `options`, lowercased, with the texts they came from.
fn lowered_display_texts<T: Display>(options: &[DropdownOption<T>]) -> (r: (Vec<String>, Ghost<Seq<Seq<char>>>))
    ensures
        texts_agree(options@, r.1@),
        r.0@.len() == options@.len(),
        views(r.0@) == lowered(r.1@),
{
    let mut texts: Vec<String> = Vec::new();
    let ghost mut raw: Seq<Seq<char>> = Seq::empty();
    let mut i: usize = 0;
    while i < options.len()
        invariant
            i <= options@.len(),
            raw.len() == i,
            texts@.len() == i,
            forall|j: int| 0 <= j < i ==> (#[trigger] options@[j].label matches Some(l) ==> raw[j] == l@),
            forall|j: int| 0 <= j < i ==> #[trigger] texts@[j]@ == lowercase(raw[j]),
        decreases options@.len() - i,
    {
        let t = options[i].display_text();
        let lower = to_lowercase(t.as_str());
        proof {
            raw = raw.push(t@);
        }
        texts.push(lower);
        i = i + 1;
    }
    assert(views(texts@) =~= lowered(raw));
    (texts, Ghost(raw))
}

/// The first option that can be chosen whose text in `texts` starts with
/// `key`.
pub fn first_type_ahead_match<T>(options: &[DropdownOption<T>], texts: &[String], key: &str) -> (r: Option<usize>)
    ensures
        r == (match first_prefix_match(options@, views(texts@), key@, 0) {
            Some(i) => Some(i as usize),
            None => None::<usize>,
        }),
{
    let mut i: usize = 0;
    while i < options.len() && i < texts.len()
        invariant
            first_prefix_match(options@, views(texts@), key@, 0) == first_prefix_match(options@, views(texts@), key@, i as int),
        decreases options@.len() - i,
    {
        assert(views(texts@)[i as int] == texts@[i as int]@);
        if !options[i].disabled && has_prefix(texts[i].as_str(), key) {
            return Some(i);
        }
        i = i + 1;
    }
    None
}

/// The indices of the texts in `texts` that contain `key`, in order.
pub fn indices_containing(texts: &[String], key: &str) -> (r: Vec<usize>)
    ensures
        r@ == matching_indices(views(texts@), key@, texts@.len() as int),
{
    let mut out: Vec<usize> = Vec::new();
    let mut i: usize = 0;
    while i < texts.len()
        invariant
            i <= texts@.len(),
            out@ == matching_indices(views(texts@), key@, i as int),
        decreases texts@.len() - i,
    {
        assert(views(texts@)[i as int] == texts@[i as int]@);
        if contains_str(texts[i].as_str(), key) {
            out.push(i);
        }
        i = i + 1;
    }
    out
}

/// The options whose text contains `search`, ignoring case, with their
/// indices; all options when `search` is empty.
pub fn filtered_options<'a, T: Display>(options: &'a [DropdownOption<T>], search: &str) -> (r: Vec<(usize, &'a DropdownOption<T>)>)
    ensures
        search@.len() == 0 ==> r@.len() == options@.len() && forall|i: int| 0 <= i < r@.len() ==> #[trigger] r@[i] == (i as usize, &options@[i]),
        search@.len() > 0 ==> exists|raw: Seq<Seq<char>>| {
            &&& texts_agree(options@, raw)
            &&& r@.len() == #[trigger] matching_indices(lowered(raw), lowercase(search@), options@.len() as int).len()
            &&& forall|i: int| 0 <= i < r@.len() ==> {
                let k = matching_indices(lowered(raw), lowercase(search@), options@.len() as int)[i];
                &&& #[trigger] r@[i].0 == k
                &&& r@[i].1 == &options@[k as int]
            }
        },
{
    if search.unicode_len() == 0 {
        let mut all: Vec<(usize, &DropdownOption<T>)> = Vec::new();
        let mut i: usize = 0;
        while i < options.len()
            invariant
                i <= options@.len(),
                all@.len() == i,
                forall|j: int| 0 <= j < i ==> #[trigger] all@[j] == (j as usize, &options@[j]),
            decreases options@.len() - i,
        {
            all.push((i, &options[i]));
            i = i + 1;
        }
        return all;
    }
    let key = to_lowercase(search);
    let (texts, Ghost(raw)) = lowered_display_texts(options);
    let idx = indices_containing(texts.as_slice(), key.as_str());
    let n_texts = texts.len();
    proof {
        lemma_matching_bounded(views(texts@), key@, texts@.len() as int);
    }
    let mut out: Vec<(usize, &DropdownOption<T>)> = Vec::new();
    let mut j: usize = 0;
    while j < idx.len()
        invariant
            j <= idx@.len(),
            out@.len() == j,
            idx@ == matching_indices(views(texts@), key@, texts@.len() as int),
            texts@.len() == options@.len(),
            forall|m: int| 0 <= m < idx@.len() ==> (#[trigger] idx@[m] as int) < options@.len(),
            forall|m: int| 0 <= m < j ==> #[trigger] out@[m] == (idx@[m], &options@[idx@[m] as int]),
        decreases idx@.len() - j,
    {
        let k = idx[j];
        out.push((k, &options[k]));
        j = j + 1;
    }
    proof {
        assert(views(texts@) == lowered(raw));
        assert forall|i: int| 0 <= i < out@.len() implies {
            let k = matching_indices(lowered(raw), lowercase(search@), options@.len() as int)[i];
            &&& #[trigger] out@[i].0 == k
            &&& out@[i].1 == &options@[k as int]
        } by {}
    }
    out
}

proof fn lemma_matching_bounded(texts: Seq<Seq<char>>, key: Seq<char>, n: int)
    requires
        n <= usize::MAX + 1,
    ensures
        forall|m: int| 0 <= m < matching_indices(texts, key, n).len() ==> (#[trigger] matching_indices(texts, key, n)[m] as int) < n,
    decreases n,
{
    if n > 0 {
        lemma_matching_bounded(texts, key, n - 1);
        let prev = matching_indices(texts, key, n - 1);
        let cur = matching_indices(texts, key, n);
        assert forall|m: int| 0 <= m < cur.len() implies (#[trigger] cur[m] as int) < n by {
            if m < prev.len() {
                assert(cur[m] == prev[m]);
            } else {
                assert(cur[m] == (n - 1) as usize);
            }
        }
    }
}

/// The search text after typing `ch` onto `before`, when `since_last_ms`
/// milliseconds passed since the last character (`None` if there was none):
/// after more than 500 ms the search starts afresh.
pub open spec fn typed_search(before: Seq<char>, ch: char, since_last_ms: Option<u128>) -> Seq<char> {
    if since_last_ms matches Some(ms) && ms > 500 {
        seq![ch]
    } else {
        before.push(ch)
    }
}

/// React to character `ch` typed at instant `now` on an open dropdown with
/// `options`, `since_last_ms` milliseconds after the previous character
/// (`None` if there was none): the character extends the search text, which
/// starts afresh when more than 500 ms passed, and the first option that
/// can be chosen and whose text starts with the search text, ignoring case,
/// is highlighted.  A closed dropdown ignores the character.
pub fn type_ahead<T: Display>(
    options: &[DropdownOption<T>],
    ch: char,
    state: &mut DropdownState,
    now: Instant,
    since_last_ms: Option<u128>,
)
    ensures
        !old(state).is_open ==> *final(state) == *old(state),
        old(state).is_open ==> {
            &&& final(state).is_open
            &&& final(state).selected_index == old(state).selected_index
            &&& final(state).last_search_time == Some(now)
            &&& final(state).search_text@ == typed_search(old(state).search_text@, ch, since_last_ms)
            &&& exists|raw: Seq<Seq<char>>| {
                &&& texts_agree(options@, raw)
                &&& final(state).highlighted_index == moved_to(
                    #[trigger] first_prefix_match(options@, lowered(raw), lowercase(final(state).search_text@), 0),
                    old(state).highlighted_index,
                )
            }
        },
{
    if !state.is_open {
        return;
    }
    match since_last_ms {
        Some(ms) => {
            if ms > 500 {
                state.search_text = String::new();
            }
        },
        None => {},
    }
    proof {
        assert(Seq::<char>::empty().push(ch) =~= seq![ch]);
    }
    push_char(&mut state.search_text, ch);
    state.last_search_time = Some(now);
    let key = to_lowercase(state.search_text.as_str());
    let (texts, Ghost(raw)) = lowered_display_texts(options);
    let found = first_type_ahead_match(options, texts.as_slice(), key.as_str());
    if let Some(i) = found {
        state.highlighted_index = Some(i);
    }
    proof {
        assert(views(texts@) == lowered(raw));
        assert(texts_agree(options@, raw));
        assert(first_prefix_match(options@, lowered(raw), lowercase(state.search_text@), 0)
            == first_prefix_match(options@, views(texts@), key@, 0));
    }
}

/// React to character `ch` typed now on a dropdown with `options`: reads
/// the clock and hands the time since the last character to `type_ahead`.
pub fn handle_char<T: Display>(options: &[DropdownOption<T>], ch: char, state: &mut DropdownState)
    ensures
        !old(state).is_open ==> *final(state) == *old(state),
        old(state).is_open ==> {
            &&& final(state).is_open
            &&& final(state).selected_index == old(state).selected_index
            &&& final(state).last_search_time is Some
            &&& (final(state).search_text@ == old(state).search_text@.push(ch)
                || (old(state).last_search_time is Some && final(state).search_text@ == seq![ch]))
            &&& exists|raw: Seq<Seq<char>>| {
                &&& texts_agree(options@, raw)
                &&& final(state).highlighted_index == moved_to(
                    #[trigger] first_prefix_match(options@, lowered(raw), lowercase(final(state).search_text@), 0),
                    old(state).highlighted_index,
                )
            }
        },
{
    if !state.is_open {
        return;
    }
    let t = now();
    let since_last_ms = match state.last_search_time {
        Some(last) => {
            let since = duration_since(&t, &last);
            Some(duration_millis(&since))
        },
        None => None,
    };
    type_ahead(options, ch, state, t, since_last_ms);
}

/// One enabled option, without label or group, per value, in order.
pub fn options_from_values<T>(values: Vec<T>) -> (r: Vec<DropdownOption<T>>)
    ensures
        r@.len() == values@.len(),
        forall|i: int| 0 <= i < r@.len() ==> {
            &&& #[trigger] r@[i].value == values@[i]
            &&& r@[i].label is None
            &&& !r@[i].disabled
            &&& r@[i].group is None
        },
{
    let mut values = values;
    let ghost all = values@;
    let mut out: Vec<DropdownOption<T>> = Vec::new();
    let mut rest: Vec<T> = Vec::new();
    // take the values from the back, then restore their order
    while values.len() > 0
        invariant
            values@.len() + rest@.len() == all.len(),
            values@ == all.subrange(0, values@.len() as int),
            forall|j: int| 0 <= j < rest@.len() ==> #[trigger] rest@[j] == all[all.len() - 1 - j],
        decreases values@.len(),
    {
        let v = values.pop().unwrap();
        rest.push(v);
    }
    while rest.len() > 0
        invariant
            rest@.len() + out@.len() == all.len(),
            forall|j: int| 0 <= j < rest@.len() ==> #[trigger] rest@[j] == all[all.len() - 1 - j],
            forall|j: int| 0 <= j < out@.len() ==> {
                &&& #[trigger] out@[j].value == all[j]
                &&& out@[j].label is None
                &&& !out@[j].disabled
                &&& out@[j].group is None
            },
        decreases rest@.len(),
    {
        let v = rest.pop().unwrap();
        out.push(DropdownOption::new(v));
    }
    out
}

/// The selected option of a dropdown with `options` in `state`, if any.
pub fn selected_option<'a, T>(options: &'a [DropdownOption<T>], state: &DropdownState) -> (r: Option<&'a DropdownOption<T>>)
    ensures
        r == (match state.selected_index {
            Some(i) if (i as int) < options@.len() => Some(&options@[i as int]),
            _ => None::<&DropdownOption<T>>,
        }),
{
    match state.selected_index {
        Some(i) => {
            if i < options.len() {
                Some(&options[i])
            } else {
                None
            }
        },
        None => None,
    }
}

/// Keyboard navigation never highlights an option that cannot be chosen:
/// after Up, Down, Home or End on an open dropdown, a changed highlight is
/// on an option that exists and is enabled.
pub proof fn law_navigation_lands_on_enabled<T>(
    options: Seq<DropdownOption<T>>,
    key: Key,
    before: DropdownState,
    after: DropdownState,
)
    requires
        options.len() <= usize::MAX,
        before.is_open,
        key == Key::Up || key == Key::Down || key == Key::Home || key == Key::End,
        after_key(options, key, before, after),
    ensures
        after.highlighted_index != before.highlighted_index ==> (after.highlighted_index matches Some(i)
            && enabled_at(options, i as int)),
{
    let current = match before.highlighted_index { Some(h) => h as int, None => 0 };
    lemma_last_enabled_bounds(options, current);
    lemma_last_enabled_bounds(options, options.len() as int);
    lemma_first_enabled_bounds(options, current + 1);
    lemma_first_enabled_bounds(options, 0);
}

/// Law: a closed dropdown opens on Space and on Return alike, with the
/// highlight on the selected option and the selection kept; every other key
/// leaves it closed with its selection.  So on a closed dropdown the two
/// keys have the same effect.
pub proof fn law_closed_dropdown_opens_on_space_or_return<T>(
    options: Seq<DropdownOption<T>>,
    key: Key,
    before: DropdownState,
    after: DropdownState,
)
    requires
        !before.is_open,
    ensures
        after_key(options, Key::Return, before, after) == after_key(options, Key::Space, before, after),
        after_key(options, key, before, after) && (key == Key::Space || key == Key::Return) ==> {
            &&& after.is_open
            &&& after.highlighted_index == before.selected_index
            &&& after.selected_index == before.selected_index
        },
        after_key(options, key, before, after) && key != Key::Space && key != Key::Return ==> {
            &&& !after.is_open
            &&& after.selected_index == before.selected_index
        },
{
}

} // verus!
