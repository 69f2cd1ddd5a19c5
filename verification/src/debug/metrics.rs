//! Frame timing: the metrics of each frame and a bounded history of them.
//!
//! Times are kept as whole nanoseconds.

use vstd::prelude::*;
use std::collections::VecDeque;
use std::time::Instant;
use crate::clock::{now, elapsed, duration_nanos};

verus! {

/// Number of frames the history keeps (about two seconds at 60 fps).
pub const MAX_HISTORY: usize = 120;

/// Metrics of one frame.
#[derive(Debug, Clone, Copy, PartialEq, Eq, Structural)]
pub struct FrameMetrics {
    /// Total frame time, in nanoseconds
    pub frame_time: u64,
    /// Time spent in the layout phase, in nanoseconds
    pub layout_time: u64,
    /// Time spent in the paint phase, in nanoseconds
    pub paint_time: u64,
    /// Number of elements culled
    pub culled_count: usize,
    /// Number of elements rendered
    pub rendered_count: usize,
}

/// Metrics with every time and count zero.
pub open spec fn zero_metrics() -> FrameMetrics {
    FrameMetrics { frame_time: 0, layout_time: 0, paint_time: 0, culled_count: 0, rendered_count: 0 }
}

impl Default for FrameMetrics {
    fn default() -> (m: Self)
        ensures
            m == zero_metrics(),
    {
        FrameMetrics { frame_time: 0, layout_time: 0, paint_time: 0, culled_count: 0, rendered_count: 0 }
    }
}

/// `history` after `m` is stored in it: the oldest frame is dropped first
/// when `max` frames are already kept.
pub open spec fn stored_frame(history: Seq<FrameMetrics>, m: FrameMetrics, max: nat) -> Seq<FrameMetrics> {
    if history.len() >= max {
        history.subrange(1, history.len() as int).push(m)
    } else {
        history.push(m)
    }
}

/// `n` nanoseconds as a `u64`, saturating at `u64::MAX`.
pub open spec fn saturated_nanos(n: u128) -> u64 {
    if n > u64::MAX {
        u64::MAX
    } else {
        n as u64
    }
}

/// Sum of the frame times of `h`.
pub open spec fn total_frame_time(h: Seq<FrameMetrics>) -> nat
    decreases h.len(),
{
    if h.len() == 0 {
        0
    } else {
        total_frame_time(h.drop_last()) + h.last().frame_time as nat
    }
}

/// Tracks the metrics of the current frame and a bounded history.
pub struct PerformanceMetrics {
    history: VecDeque<FrameMetrics>,
    max_history: usize,
    frame_start: Option<Instant>,
    current_frame: FrameMetrics,
    show_graph: bool,
    show_details: bool,
}

impl PerformanceMetrics {
    /// The finished frames, oldest first.
    pub closed spec fn history(&self) -> Seq<FrameMetrics> {
        self.history@
    }

    /// The metrics of the frame being measured.
    pub closed spec fn current(&self) -> FrameMetrics {
        self.current_frame
    }

    /// Whether a frame was started and not yet ended.
    pub closed spec fn in_frame(&self) -> bool {
        self.frame_start is Some
    }

    /// Whether the graph is shown.
    pub closed spec fn graph_shown(&self) -> bool {
        self.show_graph
    }

    /// Whether the details are shown.
    pub closed spec fn details_shown(&self) -> bool {
        self.show_details
    }

    /// The invariant: the history holds at most `MAX_HISTORY` frames.
    pub closed spec fn wf(&self) -> bool {
        &&& self.max_history == MAX_HISTORY
        &&& self.history@.len() <= MAX_HISTORY
    }

    /// No frame measured yet; graph and details shown.
    pub fn new() -> (m: Self)
        ensures
            m.wf(),
            m.history() == Seq::<FrameMetrics>::empty(),
            m.current() == zero_metrics(),
            !m.in_frame(),
            m.graph_shown(),
            m.details_shown(),
    {
        PerformanceMetrics {
            history: VecDeque::with_capacity(MAX_HISTORY),
            max_history: MAX_HISTORY,
            frame_start: None,
            current_frame: FrameMetrics::default(),
            show_graph: true,
            show_details: true,
        }
    }

    /// Start measuring a frame: the clock starts and the frame's metrics
    /// are reset.
    pub fn frame_start(&mut self)
        requires
            old(self).wf(),
        ensures
            final(self).wf(),
            final(self).in_frame(),
            final(self).current() == zero_metrics(),
            final(self).history() == old(self).history(),
            final(self).graph_shown() == old(self).graph_shown(),
            final(self).details_shown() == old(self).details_shown(),
    {
        self.frame_start = Some(now());
        self.current_frame = FrameMetrics::default();
    }

    /// End the frame being measured, `elapsed_nanos` nanoseconds after it
    /// started: its frame time is that count (saturating at `u64::MAX`),
    /// and it is stored in the history, dropping the oldest frame when the
    /// history is full.  Without a started frame nothing happens.
    pub fn frame_end_with(&mut self, elapsed_nanos: u128)
        requires
            old(self).wf(),
        ensures
            final(self).wf(),
            !final(self).in_frame(),
            final(self).graph_shown() == old(self).graph_shown(),
            final(self).details_shown() == old(self).details_shown(),
            !old(self).in_frame() ==> {
                &&& final(self).history() == old(self).history()
                &&& final(self).current() == old(self).current()
            },
            old(self).in_frame() ==> {
                &&& final(self).current() == (FrameMetrics {
                    frame_time: saturated_nanos(elapsed_nanos),
                    ..old(self).current()
                })
                &&& final(self).history() == stored_frame(old(self).history(), final(self).current(), MAX_HISTORY as nat)
            },
    {
        let start = self.frame_start.take();
        match start {
            Some(_) => {
                let t: u64 = if elapsed_nanos > 0xFFFF_FFFF_FFFF_FFFFu128 {
                    0xFFFF_FFFF_FFFF_FFFFu64
                } else {
                    elapsed_nanos as u64
                };
                self.current_frame.frame_time = t;
                let ghost before = self.history@;
                if self.history.len() >= self.max_history {
                    let _ = self.history.pop_front();
                }
                self.history.push_back(self.current_frame);
                proof {
                    if before.len() >= MAX_HISTORY {
                        assert(self.history@ =~= before.subrange(1, before.len() as int).push(self.current_frame));
                    }
                }
            },
            None => {},
        }
    }

    /// End the frame being measured: reads the clock for the time since
    /// the frame started and hands it to `frame_end_with`.  Without a
    /// started frame nothing happens.
    pub fn frame_end(&mut self)
        requires
            old(self).wf(),
        ensures
            final(self).wf(),
            !final(self).in_frame(),
            final(self).graph_shown() == old(self).graph_shown(),
            final(self).details_shown() == old(self).details_shown(),
            !old(self).in_frame() ==> {
                &&& final(self).history() == old(self).history()
                &&& final(self).current() == old(self).current()
            },
            old(self).in_frame() ==> {
                &&& final(self).current() == (FrameMetrics {
                    frame_time: final(self).current().frame_time,
                    ..old(self).current()
                })
                &&& final(self).history() == stored_frame(old(self).history(), final(self).current(), MAX_HISTORY as nat)
            },
    {
        let mut elapsed_nanos: u128 = 0;
        if let Some(start) = &self.frame_start {
            let d = elapsed(start);
            elapsed_nanos = duration_nanos(&d);
        }
        self.frame_end_with(elapsed_nanos);
    }

    /// Record the layout time of the current frame, in nanoseconds.
    pub fn record_layout_time(&mut self, nanos: u64)
        ensures
            final(self).current() == (FrameMetrics { layout_time: nanos, ..old(self).current() }),
            final(self).history() == old(self).history(),
            final(self).in_frame() == old(self).in_frame(),
            final(self).graph_shown() == old(self).graph_shown(),
            final(self).details_shown() == old(self).details_shown(),
            old(self).wf() ==> final(self).wf(),
    {
        self.current_frame.layout_time = nanos;
    }

    /// Record the paint time of the current frame, in nanoseconds.
    pub fn record_paint_time(&mut self, nanos: u64)
        ensures
            final(self).current() == (FrameMetrics { paint_time: nanos, ..old(self).current() }),
            final(self).history() == old(self).history(),
            final(self).in_frame() == old(self).in_frame(),
            final(self).graph_shown() == old(self).graph_shown(),
            final(self).details_shown() == old(self).details_shown(),
            old(self).wf() ==> final(self).wf(),
    {
        self.current_frame.paint_time = nanos;
    }

    /// Record the culling counts of the current frame.
    pub fn record_culling_stats(&mut self, culled: usize, rendered: usize)
        ensures
            final(self).current() == (FrameMetrics { culled_count: culled, rendered_count: rendered, ..old(self).current() }),
            final(self).history() == old(self).history(),
            final(self).in_frame() == old(self).in_frame(),
            final(self).graph_shown() == old(self).graph_shown(),
            final(self).details_shown() == old(self).details_shown(),
            old(self).wf() ==> final(self).wf(),
    {
        self.current_frame.culled_count = culled;
        self.current_frame.rendered_count = rendered;
    }

    /// The most recent finished frame.
    pub fn latest(&self) -> (r: Option<&FrameMetrics>)
        ensures
            self.history().len() == 0 ==> r is None,
            self.history().len() > 0 ==> r == Some(&self.history().last()),
    {
        let n = self.history.len();
        if n == 0 {
            None
        } else {
            Some(&self.history[n - 1])
        }
    }

    /// The mean frame time of the history in nanoseconds, rounded down; zero
    /// for an empty history.
    pub fn average_frame_time(&self) -> (r: u64)
        ensures
            self.history().len() == 0 ==> r == 0,
            self.history().len() > 0 ==> r == total_frame_time(self.history()) / self.history().len(),
    {
        let n = self.history.len();
        if n == 0 {
            return 0;
        }
        let mut total: u128 = 0;
        let mut i: usize = 0;
        while i < n
            invariant
                n == self.history@.len(),
                i <= n,
                total == total_frame_time(self.history@.take(i as int)),
                total <= i * 0xFFFF_FFFF_FFFF_FFFFu64,
            decreases n - i,
        {
            assert(self.history@.take(i + 1).drop_last() =~= self.history@.take(i as int));
            total = total + self.history[i].frame_time as u128;
            i = i + 1;
        }
        assert(self.history@.take(n as int) =~= self.history@);
        let avg = total / (n as u128);
        assert(avg <= 0xFFFF_FFFF_FFFF_FFFFu64) by (nonlinear_arith)
            requires
                avg == total / (n as u128),
                total <= n * 0xFFFF_FFFF_FFFF_FFFFu64,
                n > 0,
        ;
        avg as u64
    }

    /// Show or hide the graph.
    pub fn toggle_graph(&mut self)
        ensures
            final(self).graph_shown() == !old(self).graph_shown(),
            final(self).details_shown() == old(self).details_shown(),
            final(self).history() == old(self).history(),
            final(self).current() == old(self).current(),
            final(self).in_frame() == old(self).in_frame(),
            old(self).wf() ==> final(self).wf(),
    {
        self.show_graph = !self.show_graph;
    }

    /// Show or hide the details.
    pub fn toggle_details(&mut self)
        ensures
            final(self).details_shown() == !old(self).details_shown(),
            final(self).graph_shown() == old(self).graph_shown(),
            final(self).history() == old(self).history(),
            final(self).current() == old(self).current(),
            final(self).in_frame() == old(self).in_frame(),
            old(self).wf() ==> final(self).wf(),
    {
        self.show_details = !self.show_details;
    }

    /// Whether the graph is shown.
    pub fn graph_visible(&self) -> (r: bool)
        ensures
            r == self.graph_shown(),
    {
        self.show_graph
    }

    /// Whether the details are shown.
    pub fn details_visible(&self) -> (r: bool)
        ensures
            r == self.details_shown(),
    {
        self.show_details
    }

    /// The finished frames, oldest first.
    pub fn frame_history(&self) -> (r: Vec<FrameMetrics>)
        ensures
            r@ == self.history(),
    {
        let mut out: Vec<FrameMetrics> = Vec::new();
        let mut i: usize = 0;
        while i < self.history.len()
            invariant
                i <= self.history@.len(),
                out@ == self.history@.take(i as int),
            decreases self.history@.len() - i,
        {
            out.push(self.history[i]);
            i = i + 1;
            assert(out@ =~= self.history@.take(i as int));
        }
        assert(self.history@.take(i as int) =~= self.history@);
        out
    }

    /// Number of finished frames kept.
    pub fn history_len(&self) -> (n: usize)
        ensures
            n == self.history().len(),
    {
        self.history.len()
    }
}

impl Default for PerformanceMetrics {
    fn default() -> (m: Self)
        ensures
            m.wf(),
            m.history() == Seq::<FrameMetrics>::empty(),
            m.current() == zero_metrics(),
            !m.in_frame(),
            m.graph_shown(),
            m.details_shown(),
    {
        Self::new()
    }
}

} // verus!
