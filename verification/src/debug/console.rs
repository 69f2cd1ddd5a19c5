//! A bounded log of debug messages, tagged with level and frame number.

use vstd::prelude::*;
use std::collections::VecDeque;
use std::time::Instant;
use crate::clock::now;

verus! {

/// Severity of a debug message.
#[derive(Debug, Clone, Copy, PartialEq, Eq, Structural)]
pub enum LogLevel {
    Debug,
    Info,
    Warn,
    Error,
}

/// Severity rank: Debug < Info < Warn < Error.
pub open spec fn level_rank(l: LogLevel) -> u8 {
    match l {
        LogLevel::Debug => 0,
        LogLevel::Info => 1,
        LogLevel::Warn => 2,
        LogLevel::Error => 3,
    }
}

/// The prefix shown before a message of level `l`.
pub open spec fn level_prefix(l: LogLevel) -> Seq<char> {
    match l {
        LogLevel::Debug => "[DBG]"@,
        LogLevel::Info => "[INF]"@,
        LogLevel::Warn => "[WRN]"@,
        LogLevel::Error => "[ERR]"@,
    }
}

impl LogLevel {
    /// The prefix shown before a message of this level.
    pub fn prefix(&self) -> (r: &'static str)
        ensures
            r@ == level_prefix(*self),
    {
        match self {
            LogLevel::Debug => "[DBG]",
            LogLevel::Info => "[INF]",
            LogLevel::Warn => "[WRN]",
            LogLevel::Error => "[ERR]",
        }
    }

    fn rank(&self) -> (r: u8)
        ensures
            r == level_rank(*self),
    {
        match self {
            LogLevel::Debug => 0,
            LogLevel::Info => 1,
            LogLevel::Warn => 2,
            LogLevel::Error => 3,
        }
    }
}

/// A single log entry.
#[derive(Debug)]
pub struct LogEntry {
    pub level: LogLevel,
    pub message: String,
    pub timestamp: Instant,
    pub frame_number: u64,
}

impl LogEntry {
    /// An entry of `level` with `message`, stamped with the current time and `frame_number`.
    pub fn new(level: LogLevel, message: &str, frame_number: u64) -> (e: Self)
        ensures
            e.level == level,
            e.message@ == message@,
            e.frame_number == frame_number,
    {
        LogEntry { level, message: message.to_owned(), timestamp: now(), frame_number }
    }
}

/// Debug console: the most recent messages, oldest first.
pub struct DebugConsole {
    entries: VecDeque<LogEntry>,
    max_entries: usize,
    frame_counter: u64,
    show_timestamps: bool,
    show_frame_numbers: bool,
    min_level: LogLevel,
    collapsed: bool,
}

impl DebugConsole {
    pub closed spec fn entries(&self) -> Seq<LogEntry> {
        self.entries@
    }

    pub closed spec fn max_entries(&self) -> usize {
        self.max_entries
    }

    pub closed spec fn frame(&self) -> u64 {
        self.frame_counter
    }

    pub closed spec fn shows_timestamps(&self) -> bool {
        self.show_timestamps
    }

    pub closed spec fn shows_frame_numbers(&self) -> bool {
        self.show_frame_numbers
    }

    pub closed spec fn min_level(&self) -> LogLevel {
        self.min_level
    }

    pub closed spec fn is_collapsed(&self) -> bool {
        self.collapsed
    }

    /// `after` differs from this console at most in its entries.
    pub open spec fn same_settings(self, after: Self) -> bool {
        &&& after.max_entries() == self.max_entries()
        &&& after.frame() == self.frame()
        &&& after.shows_timestamps() == self.shows_timestamps()
        &&& after.shows_frame_numbers() == self.shows_frame_numbers()
        &&& after.min_level() == self.min_level()
        &&& after.is_collapsed() == self.is_collapsed()
    }

    /// An empty console keeping up to `max_entries` messages, showing frame
    /// numbers, at frame 0, accepting every level.
    pub fn new(max_entries: usize) -> (c: Self)
        ensures
            c.entries() == Seq::<LogEntry>::empty(),
            c.max_entries() == max_entries,
            c.frame() == 0,
            !c.shows_timestamps(),
            c.shows_frame_numbers(),
            c.min_level() == LogLevel::Debug,
            !c.is_collapsed(),
    {
        DebugConsole {
            entries: VecDeque::with_capacity(max_entries),
            max_entries,
            frame_counter: 0,
            show_timestamps: false,
            show_frame_numbers: true,
            min_level: LogLevel::Debug,
            collapsed: false,
        }
    }

    /// `after` is this console after logging `message` at `level`: a
    /// message below the minimum level is dropped; otherwise, when the
    /// console is full (and not empty) the oldest entry is discarded, and the message is
    /// appended with the current frame number.
    pub open spec fn logged(self, after: Self, level: LogLevel, message: Seq<char>) -> bool {
        &&& self.same_settings(after)
        &&& if level_rank(level) < level_rank(self.min_level()) {
            after.entries() == self.entries()
        } else {
            let kept = if self.entries().len() >= self.max_entries() && self.entries().len() > 0 {
                self.entries().drop_first()
            } else {
                self.entries()
            };
            &&& after.entries().len() == kept.len() + 1
            &&& after.entries().drop_last() == kept
            &&& after.entries().last().level == level
            &&& after.entries().last().message@ == message
            &&& after.entries().last().frame_number == self.frame()
        }
    }

    /// Log `message` at `level`.
    pub fn log(&mut self, level: LogLevel, message: &str)
        ensures
            old(self).logged(*final(self), level, message@),
    {
        if level.rank() < self.min_level.rank() {
            return;
        }
        let entry = LogEntry::new(level, message, self.frame_counter);
        if self.entries.len() >= self.max_entries {
            let _ = self.entries.pop_front();
        }
        self.entries.push_back(entry);
        proof {
            let kept = if old(self).entries().len() >= old(self).max_entries() && old(self).entries().len() > 0 {
                old(self).entries().drop_first()
            } else {
                old(self).entries()
            };
            assert(self.entries().drop_last() =~= kept);
        }
    }

    /// Log an info message.
    pub fn info(&mut self, message: &str)
        ensures
            old(self).logged(*final(self), LogLevel::Info, message@),
    {
        self.log(LogLevel::Info, message);
    }

    /// Log a debug message.
    pub fn debug(&mut self, message: &str)
        ensures
            old(self).logged(*final(self), LogLevel::Debug, message@),
    {
        self.log(LogLevel::Debug, message);
    }

    /// Log a warning.
    pub fn warn(&mut self, message: &str)
        ensures
            old(self).logged(*final(self), LogLevel::Warn, message@),
    {
        self.log(LogLevel::Warn, message);
    }

    /// Log an error.
    pub fn error(&mut self, message: &str)
        ensures
            old(self).logged(*final(self), LogLevel::Error, message@),
    {
        self.log(LogLevel::Error, message);
    }

    /// Advance the frame counter (called once per frame).
    pub fn next_frame(&mut self)
        requires
            old(self).frame() < u64::MAX,
        ensures
            final(self).frame() == old(self).frame() + 1,
            final(self).entries() == old(self).entries(),
            final(self).max_entries() == old(self).max_entries(),
            final(self).shows_timestamps() == old(self).shows_timestamps(),
            final(self).shows_frame_numbers() == old(self).shows_frame_numbers(),
            final(self).min_level() == old(self).min_level(),
            final(self).is_collapsed() == old(self).is_collapsed(),
    {
        self.frame_counter = self.frame_counter + 1;
    }

    /// Remove every entry.
    pub fn clear(&mut self)
        ensures
            final(self).entries() == Seq::<LogEntry>::empty(),
            old(self).same_settings(*final(self)),
    {
        self.entries.clear();
    }

    /// Number of entries.
    pub fn len(&self) -> (n: usize)
        ensures
            n == self.entries().len(),
    {
        self.entries.len()
    }

    /// Whether there is no entry.
    pub fn is_empty(&self) -> (r: bool)
        ensures
            r == (self.entries().len() == 0),
    {
        self.entries.len() == 0
    }

    /// Toggle the timestamp display.
    pub fn toggle_timestamps(&mut self)
        ensures
            final(self).shows_timestamps() == !old(self).shows_timestamps(),
            final(self).entries() == old(self).entries(),
            final(self).max_entries() == old(self).max_entries(),
            final(self).frame() == old(self).frame(),
            final(self).shows_frame_numbers() == old(self).shows_frame_numbers(),
            final(self).min_level() == old(self).min_level(),
            final(self).is_collapsed() == old(self).is_collapsed(),
    {
        self.show_timestamps = !self.show_timestamps;
    }

    /// Toggle the frame-number display.
    pub fn toggle_frame_numbers(&mut self)
        ensures
            final(self).shows_frame_numbers() == !old(self).shows_frame_numbers(),
            final(self).entries() == old(self).entries(),
            final(self).max_entries() == old(self).max_entries(),
            final(self).frame() == old(self).frame(),
            final(self).shows_timestamps() == old(self).shows_timestamps(),
            final(self).min_level() == old(self).min_level(),
            final(self).is_collapsed() == old(self).is_collapsed(),
    {
        self.show_frame_numbers = !self.show_frame_numbers;
    }

    /// Toggle between collapsed and expanded.
    pub fn toggle_collapsed(&mut self)
        ensures
            final(self).is_collapsed() == !old(self).is_collapsed(),
            final(self).entries() == old(self).entries(),
            final(self).max_entries() == old(self).max_entries(),
            final(self).frame() == old(self).frame(),
            final(self).shows_timestamps() == old(self).shows_timestamps(),
            final(self).shows_frame_numbers() == old(self).shows_frame_numbers(),
            final(self).min_level() == old(self).min_level(),
    {
        self.collapsed = !self.collapsed;
    }

    /// Set the minimum level of logged messages.
    pub fn set_min_level(&mut self, level: LogLevel)
        ensures
            final(self).min_level() == level,
            final(self).entries() == old(self).entries(),
            final(self).max_entries() == old(self).max_entries(),
            final(self).frame() == old(self).frame(),
            final(self).shows_timestamps() == old(self).shows_timestamps(),
            final(self).shows_frame_numbers() == old(self).shows_frame_numbers(),
            final(self).is_collapsed() == old(self).is_collapsed(),
    {
        self.min_level = level;
    }

    /// The `count` most recent entries, newest first.
    pub fn recent_entries(&self, count: usize) -> (r: Vec<&LogEntry>)
        ensures
            r@.len() == (if count < self.entries().len() { count as int } else { self.entries().len() as int }),
            forall|i: int| 0 <= i < r@.len() ==> *(#[trigger] r@[i]) == self.entries()[self.entries().len() - 1 - i],
    {
        let n = self.entries.len();
        let take = if count < n { count } else { n };
        let mut r: Vec<&LogEntry> = Vec::new();
        let mut i: usize = 0;
        while i < take
            invariant
                take <= n,
                n == self.entries@.len(),
                i <= take,
                r@.len() == i,
                forall|k: int| 0 <= k < i ==> *(#[trigger] r@[k]) == self.entries()[n - 1 - k],
            decreases take - i,
        {
            r.push(&self.entries[n - 1 - i]);
            i = i + 1;
        }
        r
    }
}

impl Default for DebugConsole {
    fn default() -> (c: Self)
        ensures
            c.entries() == Seq::<LogEntry>::empty(),
            c.max_entries() == 100,
            c.frame() == 0,
            !c.shows_timestamps(),
            c.shows_frame_numbers(),
            c.min_level() == LogLevel::Debug,
            !c.is_collapsed(),
    {
        Self::new(100)
    }
}

/// The most messages a console of capacity `max` holds: its capacity, but
/// at least the latest message.
pub open spec fn capacity_bound(max: usize) -> int {
    if max == 0 { 1 } else { max as int }
}

/// Logging keeps a console within its capacity: a console holding at most
/// `capacity_bound` messages still does after logging one more.
pub proof fn law_console_stays_bounded(before: DebugConsole, after: DebugConsole, level: LogLevel, message: Seq<char>)
    requires
        before.entries().len() <= capacity_bound(before.max_entries()),
        before.logged(after, level, message),
    ensures
        after.entries().len() <= capacity_bound(after.max_entries()),
{
}

} // verus!
