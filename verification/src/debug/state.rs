//! Debug panels, and the debug state: whether debug mode is on, which
//! panels are shown and which element is inspected.

use vstd::prelude::*;

verus! {

/// Debug panels that can be shown.
#[derive(Debug, Clone, Copy, PartialEq, Eq, Hash, Structural)]
pub enum DebugPanel {
    /// Element bounds overlay
    Bounds,
    /// Layout inspector
    Layout,
    /// Hit-test visualization
    HitTest,
    /// Performance metrics
    Metrics,
    /// Entity inspector
    Inspector,
    /// Debug console
    Console,
}

/// The key that toggles panel `p`.
pub open spec fn panel_shortcut(p: DebugPanel) -> Seq<char> {
    match p {
        DebugPanel::Bounds => "F1"@,
        DebugPanel::Layout => "F2"@,
        DebugPanel::HitTest => "F3"@,
        DebugPanel::Metrics => "F4"@,
        DebugPanel::Inspector => "F5"@,
        DebugPanel::Console => "F6"@,
    }
}

/// The display name of panel `p`.
pub open spec fn panel_name(p: DebugPanel) -> Seq<char> {
    match p {
        DebugPanel::Bounds => "Bounds"@,
        DebugPanel::Layout => "Layout"@,
        DebugPanel::HitTest => "Hit Test"@,
        DebugPanel::Metrics => "Metrics"@,
        DebugPanel::Inspector => "Inspector"@,
        DebugPanel::Console => "Console"@,
    }
}

impl DebugPanel {
    /// The key that toggles this panel.
    pub fn shortcut(&self) -> (r: &'static str)
        ensures
            r@ == panel_shortcut(*self),
    {
        match self {
            DebugPanel::Bounds => "F1",
            DebugPanel::Layout => "F2",
            DebugPanel::HitTest => "F3",
            DebugPanel::Metrics => "F4",
            DebugPanel::Inspector => "F5",
            DebugPanel::Console => "F6",
        }
    }

    /// The display name of this panel.
    pub fn name(&self) -> (r: &'static str)
        ensures
            r@ == panel_name(*self),
    {
        match self {
            DebugPanel::Bounds => "Bounds",
            DebugPanel::Layout => "Layout",
            DebugPanel::HitTest => "Hit Test",
            DebugPanel::Metrics => "Metrics",
            DebugPanel::Inspector => "Inspector",
            DebugPanel::Console => "Console",
        }
    }
}

/// Position of panel `p` among the panels.
pub open spec fn panel_index(p: DebugPanel) -> int {
    match p {
        DebugPanel::Bounds => 0,
        DebugPanel::Layout => 1,
        DebugPanel::HitTest => 2,
        DebugPanel::Metrics => 3,
        DebugPanel::Inspector => 4,
        DebugPanel::Console => 5,
    }
}

fn index_of(p: DebugPanel) -> (i: usize)
    ensures
        i == panel_index(p),
{
    match p {
        DebugPanel::Bounds => 0,
        DebugPanel::Layout => 1,
        DebugPanel::HitTest => 2,
        DebugPanel::Metrics => 3,
        DebugPanel::Inspector => 4,
        DebugPanel::Console => 5,
    }
}

/// The panels in order.
pub open spec fn all_panels() -> Seq<DebugPanel> {
    seq![
        DebugPanel::Bounds,
        DebugPanel::Layout,
        DebugPanel::HitTest,
        DebugPanel::Metrics,
        DebugPanel::Inspector,
        DebugPanel::Console,
    ]
}

/// Whether debug mode is on, which panels are shown, and which element is
/// inspected.
pub struct DebugState {
    enabled: bool,
    active_panels: [bool; 6],
    selected_element: Option<u64>,
}

impl DebugState {
    /// Whether debug mode is on.
    pub closed spec fn on(&self) -> bool {
        self.enabled
    }

    /// The panels shown.
    pub closed spec fn panels(&self) -> Set<DebugPanel> {
        Set::new(|p: DebugPanel| self.active_panels@[panel_index(p)])
    }

    /// The element selected for inspection.
    pub closed spec fn selection(&self) -> Option<u64> {
        self.selected_element
    }

    /// Debug mode off, only the metrics panel shown, nothing selected.
    pub fn new() -> (s: Self)
        ensures
            !s.on(),
            s.panels() == set![DebugPanel::Metrics],
            s.selection() is None,
    {
        let s = DebugState { enabled: false, active_panels: [false, false, false, true, false, false], selected_element: None };
        assert(s.panels() =~= set![DebugPanel::Metrics]);
        s
    }

    /// Whether debug mode is on.
    pub fn is_enabled(&self) -> (r: bool)
        ensures
            r == self.on(),
    {
        self.enabled
    }

    /// Turn debug mode on.
    pub fn enable(&mut self)
        ensures
            final(self).on(),
            final(self).panels() == old(self).panels(),
            final(self).selection() == old(self).selection(),
    {
        self.enabled = true;
    }

    /// Turn debug mode off.
    pub fn disable(&mut self)
        ensures
            !final(self).on(),
            final(self).panels() == old(self).panels(),
            final(self).selection() == old(self).selection(),
    {
        self.enabled = false;
    }

    /// Turn debug mode on or off.
    pub fn toggle_enabled(&mut self)
        ensures
            final(self).on() == !old(self).on(),
            final(self).panels() == old(self).panels(),
            final(self).selection() == old(self).selection(),
    {
        self.enabled = !self.enabled;
    }

    /// Whether `panel` is shown.
    pub fn is_panel_enabled(&self, panel: DebugPanel) -> (r: bool)
        ensures
            r == self.panels().contains(panel),
    {
        self.active_panels[index_of(panel)]
    }

    /// Show `panel`.
    pub fn enable_panel(&mut self, panel: DebugPanel)
        ensures
            final(self).panels() == old(self).panels().insert(panel),
            final(self).on() == old(self).on(),
            final(self).selection() == old(self).selection(),
    {
        self.set_panel(panel, true);
    }

    /// Hide `panel`.
    pub fn disable_panel(&mut self, panel: DebugPanel)
        ensures
            final(self).panels() == old(self).panels().remove(panel),
            final(self).on() == old(self).on(),
            final(self).selection() == old(self).selection(),
    {
        self.set_panel(panel, false);
    }

    /// Show `panel` if hidden, hide it if shown.
    pub fn toggle_panel(&mut self, panel: DebugPanel)
        ensures
            final(self).panels() == (if old(self).panels().contains(panel) {
                old(self).panels().remove(panel)
            } else {
                old(self).panels().insert(panel)
            }),
            final(self).on() == old(self).on(),
            final(self).selection() == old(self).selection(),
    {
        let shown = self.is_panel_enabled(panel);
        self.set_panel(panel, !shown);
    }

    fn set_panel(&mut self, panel: DebugPanel, shown: bool)
        ensures
            final(self).panels() == (if shown { old(self).panels().insert(panel) } else { old(self).panels().remove(panel) }),
            final(self).on() == old(self).on(),
            final(self).selection() == old(self).selection(),
    {
        let i = index_of(panel);
        self.active_panels.set(i, shown);
        proof {
            let want = if shown { old(self).panels().insert(panel) } else { old(self).panels().remove(panel) };
            assert forall|p: DebugPanel| #[trigger] self.panels().contains(p) == want.contains(p) by {
                if p != panel {
                    assert(panel_index(p) != panel_index(panel));
                }
            }
            assert(self.panels() =~= want);
        }
    }

    /// The panels shown, in panel order.
    pub fn active_panels(&self) -> (r: Vec<DebugPanel>)
        ensures
            forall|p: DebugPanel| #[trigger] r@.contains(p) <==> self.panels().contains(p),
            r@.no_duplicates(),
    {
        let mut out: Vec<DebugPanel> = Vec::new();
        let all: [DebugPanel; 6] = [
            DebugPanel::Bounds,
            DebugPanel::Layout,
            DebugPanel::HitTest,
            DebugPanel::Metrics,
            DebugPanel::Inspector,
            DebugPanel::Console,
        ];
        let mut i: usize = 0;
        while i < 6
            invariant
                i <= 6,
                all@ == all_panels(),
                forall|p: DebugPanel| #[trigger] out@.contains(p) <==> (panel_index(p) < i && self.panels().contains(p)),
                forall|j: int| 0 <= j < out@.len() ==> panel_index(#[trigger] out@[j]) < i,
                out@.no_duplicates(),
            decreases 6 - i,
        {
            let p = all[i];
            assert(panel_index(p) == i);
            proof {
                assert forall|q: DebugPanel| panel_index(q) == i implies q == p by {
                    lemma_panel_index_injective(q, p);
                }
            }
            if self.is_panel_enabled(p) {
                let ghost prev = out@;
                proof {
                    if prev.contains(p) {
                        let j = choose|j: int| 0 <= j < prev.len() && prev[j] == p;
                        assert(panel_index(prev[j]) < i);
                    }
                }
                out.push(p);
                proof {
                    assert(out@ == prev.push(p));
                    assert forall|q: DebugPanel| #[trigger] out@.contains(q) <==> (panel_index(q) < i + 1 && self.panels().contains(q)) by {
                        if out@.contains(q) && q != p {
                            let j = choose|j: int| 0 <= j < out@.len() && out@[j] == q;
                            assert(j < prev.len());
                            assert(prev[j] == q);
                            assert(prev.contains(q));
                        }
                        if panel_index(q) == i {
                            assert(out@[out@.len() - 1] == p);
                        }
                        if panel_index(q) < i && self.panels().contains(q) {
                            assert(prev.contains(q));
                            let j = choose|j: int| 0 <= j < prev.len() && prev[j] == q;
                            assert(out@[j] == q);
                        }
                    }
                }
            }
            i = i + 1;
        }
        out
    }

    /// Select `element_id` for inspection, or clear the selection.
    pub fn select_element(&mut self, element_id: Option<u64>)
        ensures
            final(self).selection() == element_id,
            final(self).on() == old(self).on(),
            final(self).panels() == old(self).panels(),
    {
        self.selected_element = element_id;
    }

    /// The element selected for inspection.
    pub fn selected_element(&self) -> (r: Option<u64>)
        ensures
            r == self.selection(),
    {
        self.selected_element
    }
}

proof fn lemma_panel_index_injective(p: DebugPanel, q: DebugPanel)
    ensures
        panel_index(p) == panel_index(q) ==> p == q,
{
}

impl Default for DebugState {
    fn default() -> (s: Self)
        ensures
            !s.on(),
            s.panels() == set![DebugPanel::Metrics],
            s.selection() is None,
    {
        Self::new()
    }
}

} // verus!
