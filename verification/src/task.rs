//! Task templates, live task instances, and the diagnostic events they emit.

use vstd::prelude::*;
use crate::timing::wakes_before;

verus! {

/// What a task instance does each time the scheduler resumes it.
#[derive(Clone, Copy, Debug, PartialEq, Eq, Structural)]
pub enum TaskBody {
    /// Emits a diagnostic event, then flips the owned output line.
    /// The task took ownership of the line's handle at spawn time; the
    /// line's identity and current level live here for the task's lifetime.
    Toggle { line: u32, level: bool },
    /// Emits a diagnostic event only; no hardware side effect.
    Heartbeat,
}

/// One live activation of a task template. Instances are created by the
/// spawner and never destroyed: a task's lifetime is the device's lifetime.
#[derive(Clone, Copy, Debug, PartialEq, Eq, Structural)]
pub struct TaskInstance {
    /// What the task does when resumed.
    pub body: TaskBody,
    /// Ticks between successive wake-ups; always at least one tick.
    pub period: u64,
    /// Absolute time of the first wake-up this instance was scheduled for.
    pub origin: u64,
    /// Absolute time of the next pending wake-up.
    pub next_wake: u64,
    /// How many times this instance has been resumed so far.
    pub fired: u64,
}

impl TaskInstance {
    /// Whether this instance owns an output line and toggles it.
    pub open spec fn is_toggle(&self) -> bool {
        self.body is Toggle
    }

    /// The owned line of a toggle instance.
    pub open spec fn spec_line(&self) -> u32 {
        self.body->Toggle_line
    }

    /// The current level of a toggle instance's line.
    pub open spec fn spec_level(&self) -> bool {
        self.body->Toggle_level
    }

    /// A live instance always has a positive period, and its pending
    /// wake-up lies on its own grid: `origin + fired * period`.
    pub open spec fn wf(&self) -> bool {
        &&& self.period >= 1
        &&& self.next_wake == self.origin + self.fired * self.period
    }

    /// How many times this instance will be resumed strictly before
    /// `deadline` if the scheduler runs that far.
    pub open spec fn pending_before(&self, deadline: int) -> int {
        wakes_before(self.next_wake as int, self.period as int, deadline)
    }
}

/// Two instances are activations of the same template with the same
/// timing parameters (only their progress may differ).
pub open spec fn same_template(a: TaskInstance, b: TaskInstance) -> bool {
    &&& a.is_toggle() == b.is_toggle()
    &&& a.is_toggle() ==> a.spec_line() == b.spec_line()
    &&& a.period == b.period
    &&& a.origin == b.origin
}

/// Whether `time` is one of the first `fired` scheduled wake-ups of a task
/// whose first wake-up is at `origin` and whose timer re-arms every
/// `period` ticks: a resumption is never early and never off the grid.
pub open spec fn on_wake_grid(time: int, origin: int, period: int, fired: int) -> bool {
    &&& origin <= time
    &&& (time - origin) % period == 0
    &&& time < origin + fired * period
}

/// The level an output line shows after a number of transitions from a
/// starting level.
pub open spec fn level_after(start: bool, transitions: int) -> bool {
    if transitions % 2 == 0 {
        start
    } else {
        !start
    }
}

/// What a resumed task reports to the diagnostic sink.
#[derive(Clone, Copy, Debug, PartialEq, Eq, Structural)]
pub enum EventKind {
    /// A toggle task flipped its line.
    Toggled { line: u32 },
    /// The heartbeat task ran.
    Heartbeat,
}

/// One timestamped entry of the diagnostic log.
#[derive(Clone, Copy, Debug, PartialEq, Eq, Structural)]
pub struct Event {
    /// Identity of the task that was resumed.
    pub task: usize,
    /// Absolute time of the resumption.
    pub time: u64,
    /// What the task reported.
    pub kind: EventKind,
}

/// An event is one a given task instance could have emitted.
pub open spec fn event_matches(e: Event, t: TaskInstance) -> bool {
    match e.kind {
        EventKind::Toggled { line } => t.is_toggle() && line == t.spec_line(),
        EventKind::Heartbeat => !t.is_toggle(),
    }
}

} // verus!
