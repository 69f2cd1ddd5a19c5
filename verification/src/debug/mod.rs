//! Debug tooling: the log console, performance history, the debug state
//! and the overlay that ties them to keyboard toggles.

pub mod console;
pub mod state;
pub mod metrics;

use vstd::prelude::*;
use crate::debug::console::{DebugConsole, LogLevel};
use crate::debug::metrics::{stored_frame, FrameMetrics, PerformanceMetrics, MAX_HISTORY};
use crate::debug::state::{DebugPanel, DebugState};
use crate::layer::Key;

verus! {

/// The panel that function key `key` toggles, if any: F1 bounds, F2
/// layout, F3 hit testing, F4 metrics, F5 inspector, F6 console.
pub open spec fn panel_for_key(key: Key) -> Option<DebugPanel> {
    match key {
        Key::F1 => Some(DebugPanel::Bounds),
        Key::F2 => Some(DebugPanel::Layout),
        Key::F3 => Some(DebugPanel::HitTest),
        Key::F4 => Some(DebugPanel::Metrics),
        Key::F5 => Some(DebugPanel::Inspector),
        Key::F6 => Some(DebugPanel::Console),
        _ => None,
    }
}

/// The debug overlay's state: debug mode and panels, frame metrics and the
/// log console (which keeps 100 messages).
pub struct DebugOverlay {
    state: DebugState,
    metrics: PerformanceMetrics,
    console: DebugConsole,
}

impl DebugOverlay {
    /// The debug state.
    pub closed spec fn debug_state(&self) -> DebugState {
        self.state
    }

    /// The frame metrics.
    pub closed spec fn perf(&self) -> PerformanceMetrics {
        self.metrics
    }

    /// The log console.
    pub closed spec fn log_console(&self) -> DebugConsole {
        self.console
    }

    /// The overlay's invariant: the metrics history is bounded.
    pub closed spec fn wf(&self) -> bool {
        self.metrics.wf()
    }

    /// Debug mode off, metrics panel shown, no frame measured, an empty
    /// console of 100 messages.
    pub fn new() -> (o: Self)
        ensures
            o.wf(),
            !o.debug_state().on(),
            o.debug_state().panels() == set![DebugPanel::Metrics],
            o.perf().history().len() == 0,
            o.log_console().entries().len() == 0,
            o.log_console().max_entries() == 100,
    {
        DebugOverlay { state: DebugState::new(), metrics: PerformanceMetrics::new(), console: DebugConsole::new(100) }
    }

    /// The debug state.
    pub fn state(&self) -> (r: &DebugState)
        ensures
            *r == self.debug_state(),
    {
        &self.state
    }

    /// Turn debug mode on or off.
    pub fn toggle(&mut self)
        ensures
            final(self).debug_state().on() == !old(self).debug_state().on(),
            final(self).debug_state().panels() == old(self).debug_state().panels(),
            final(self).debug_state().selection() == old(self).debug_state().selection(),
            final(self).perf() == old(self).perf(),
            final(self).log_console() == old(self).log_console(),
    {
        self.state.toggle_enabled();
    }

    /// Whether debug mode is on.
    pub fn is_enabled(&self) -> (r: bool)
        ensures
            r == self.debug_state().on(),
    {
        self.state.is_enabled()
    }

    /// React to key `key`; returns whether the key was consumed.  F12 turns
    /// debug mode on or off; while it is on, F1 to F6 show or hide their
    /// panels.  Other keys are not consumed.
    pub fn handle_key(&mut self, key: Key) -> (consumed: bool)
        ensures
            final(self).perf() == old(self).perf(),
            final(self).log_console() == old(self).log_console(),
            final(self).debug_state().selection() == old(self).debug_state().selection(),
            key == Key::F12 ==> {
                &&& consumed
                &&& final(self).debug_state().on() == !old(self).debug_state().on()
                &&& final(self).debug_state().panels() == old(self).debug_state().panels()
            },
            key != Key::F12 ==> {
                &&& final(self).debug_state().on() == old(self).debug_state().on()
                &&& consumed == (old(self).debug_state().on() && panel_for_key(key) is Some)
                &&& final(self).debug_state().panels() == (if consumed {
                    let p = panel_for_key(key)->0;
                    if old(self).debug_state().panels().contains(p) {
                        old(self).debug_state().panels().remove(p)
                    } else {
                        old(self).debug_state().panels().insert(p)
                    }
                } else {
                    old(self).debug_state().panels()
                })
            },
    {
        if key == Key::F12 {
            self.toggle();
            return true;
        }
        if !self.state.is_enabled() {
            return false;
        }
        let panel = match key {
            Key::F1 => DebugPanel::Bounds,
            Key::F2 => DebugPanel::Layout,
            Key::F3 => DebugPanel::HitTest,
            Key::F4 => DebugPanel::Metrics,
            Key::F5 => DebugPanel::Inspector,
            Key::F6 => DebugPanel::Console,
            _ => {
                return false;
            },
        };
        self.state.toggle_panel(panel);
        true
    }

    /// Start measuring a frame.
    pub fn frame_start(&mut self)
        requires
            old(self).wf(),
        ensures
            final(self).wf(),
            final(self).perf().in_frame(),
            final(self).perf().history() == old(self).perf().history(),
            final(self).debug_state() == old(self).debug_state(),
            final(self).log_console() == old(self).log_console(),
    {
        self.metrics.frame_start();
    }

    /// End the frame being measured.
    pub fn frame_end(&mut self)
        requires
            old(self).wf(),
        ensures
            final(self).wf(),
            !final(self).perf().in_frame(),
            final(self).perf().graph_shown() == old(self).perf().graph_shown(),
            final(self).perf().details_shown() == old(self).perf().details_shown(),
            !old(self).perf().in_frame() ==> {
                &&& final(self).perf().history() == old(self).perf().history()
                &&& final(self).perf().current() == old(self).perf().current()
            },
            old(self).perf().in_frame() ==> {
                &&& final(self).perf().current() == (FrameMetrics {
                    frame_time: final(self).perf().current().frame_time,
                    ..old(self).perf().current()
                })
                &&& final(self).perf().history() == stored_frame(
                    old(self).perf().history(),
                    final(self).perf().current(),
                    MAX_HISTORY as nat,
                )
            },
            final(self).debug_state() == old(self).debug_state(),
            final(self).log_console() == old(self).log_console(),
    {
        self.metrics.frame_end();
    }

    /// Record the layout time of the current frame, in nanoseconds.
    pub fn record_layout_time(&mut self, nanos: u64)
        requires
            old(self).wf(),
        ensures
            final(self).wf(),
            final(self).perf().current().layout_time == nanos,
            final(self).perf().history() == old(self).perf().history(),
            final(self).debug_state() == old(self).debug_state(),
            final(self).log_console() == old(self).log_console(),
    {
        self.metrics.record_layout_time(nanos);
    }

    /// Record the paint time of the current frame, in nanoseconds.
    pub fn record_paint_time(&mut self, nanos: u64)
        requires
            old(self).wf(),
        ensures
            final(self).wf(),
            final(self).perf().current().paint_time == nanos,
            final(self).perf().history() == old(self).perf().history(),
            final(self).debug_state() == old(self).debug_state(),
            final(self).log_console() == old(self).log_console(),
    {
        self.metrics.record_paint_time(nanos);
    }

    /// Record the culling counts of the current frame.
    pub fn record_culling_stats(&mut self, culled: usize, rendered: usize)
        requires
            old(self).wf(),
        ensures
            final(self).wf(),
            final(self).perf().current().culled_count == culled,
            final(self).perf().current().rendered_count == rendered,
            final(self).perf().history() == old(self).perf().history(),
            final(self).debug_state() == old(self).debug_state(),
            final(self).log_console() == old(self).log_console(),
    {
        self.metrics.record_culling_stats(culled, rendered);
    }

    /// Log `message` at `level` to the console.
    pub fn log(&mut self, level: LogLevel, message: &str)
        ensures
            old(self).log_console().logged(final(self).log_console(), level, message@),
            final(self).debug_state() == old(self).debug_state(),
            final(self).perf() == old(self).perf(),
    {
        self.console.log(level, message);
    }

    /// Log an info message.
    pub fn info(&mut self, message: &str)
        ensures
            old(self).log_console().logged(final(self).log_console(), LogLevel::Info, message@),
            final(self).debug_state() == old(self).debug_state(),
            final(self).perf() == old(self).perf(),
    {
        self.console.info(message);
    }

    /// Log a warning.
    pub fn warn(&mut self, message: &str)
        ensures
            old(self).log_console().logged(final(self).log_console(), LogLevel::Warn, message@),
            final(self).debug_state() == old(self).debug_state(),
            final(self).perf() == old(self).perf(),
    {
        self.console.warn(message);
    }

    /// Log an error.
    pub fn error(&mut self, message: &str)
        ensures
            old(self).log_console().logged(final(self).log_console(), LogLevel::Error, message@),
            final(self).debug_state() == old(self).debug_state(),
            final(self).perf() == old(self).perf(),
    {
        self.console.error(message);
    }

    /// The console.
    pub fn console(&self) -> (r: &DebugConsole)
        ensures
            *r == self.log_console(),
    {
        &self.console
    }

    /// The debug state, for changing it.
    pub fn state_mut(&mut self) -> (r: &mut DebugState)
        ensures
            *r == old(self).debug_state(),
            final(self).debug_state() == *final(r),
            final(self).perf() == old(self).perf(),
            final(self).log_console() == old(self).log_console(),
    {
        &mut self.state
    }

    /// The console, for changing it.
    pub fn console_mut(&mut self) -> (r: &mut DebugConsole)
        ensures
            *r == old(self).log_console(),
            final(self).log_console() == *final(r),
            final(self).perf() == old(self).perf(),
            final(self).debug_state() == old(self).debug_state(),
    {
        &mut self.console
    }

    /// The frame metrics.
    pub fn metrics(&self) -> (r: &PerformanceMetrics)
        ensures
            *r == self.perf(),
    {
        &self.metrics
    }
}

impl Default for DebugOverlay {
    fn default() -> (o: Self)
        ensures
            o.wf(),
            !o.debug_state().on(),
            o.debug_state().panels() == set![DebugPanel::Metrics],
            o.perf().history().len() == 0,
            o.log_console().entries().len() == 0,
            o.log_console().max_entries() == 100,
    {
        Self::new()
    }
}

} // verus!
