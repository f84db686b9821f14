//! The runtime's cross-cutting guarantees, stated and proved once.

use vstd::prelude::*;
use crate::handle::spec_toggle;
use crate::sched::Scheduler;
use crate::sched::event_count;
use crate::task::TaskInstance;
use crate::task::level_after;
use crate::task::on_wake_grid;
use crate::timing::lemma_wakes_in_window;
use crate::timing::wakes_before;

verus! {

/// Successive toggle operations on one handle are never closer than the
/// owning task's configured period: any two diagnostic events of the same
/// task in a well-formed scheduler's log are at least that task's period
/// apart (they may be further apart, but never closer).
pub proof fn lemma_interval_at_least_period(s: Scheduler, j: int, k: int)
    requires
        s.wf(),
        0 <= j < k < s.log@.len(),
        s.log@[j].task == s.log@[k].task,
    ensures
        s.log@[j].time + s.tasks@[s.log@[j].task as int].period <= s.log@[k].time,
{
}

/// Over a window of `window` ticks starting at a task's first activation,
/// the number of its level transitions is `window / period` within one,
/// the tolerance covering the window's boundary alignment.
pub proof fn lemma_transition_count_in_window(period: u64, window: u64)
    requires
        period >= 1,
    ensures
        window as int / period as int <= wakes_before(0, period as int, window as int),
        wakes_before(0, period as int, window as int) <= window as int / period as int + 1,
{
    lemma_wakes_in_window(period as int, window as int);
}

/// A resumption is never early: every event in a well-formed scheduler's
/// log was stamped at one of its task's scheduled wake-ups — at or after
/// the task's first activation, a whole number of periods later, and
/// before the wake-up the task is currently waiting for.
pub proof fn lemma_resumption_on_own_grid(s: Scheduler, j: int)
    requires
        s.wf(),
        0 <= j < s.log@.len(),
    ensures
        on_wake_grid(
            s.log@[j].time as int,
            s.tasks@[s.log@[j].task as int].origin as int,
            s.tasks@[s.log@[j].task as int].period as int,
            s.tasks@[s.log@[j].task as int].fired as int,
        ),
{
}

/// The log reports every resumption and nothing else: a task has exactly
/// as many logged events as times it was resumed.
pub proof fn lemma_log_counts_resumptions(s: Scheduler, i: int)
    requires
        s.wf(),
        0 <= i < s.tasks@.len(),
    ensures
        event_count(s.log@, i) == s.tasks@[i].fired,
{
}

/// Tasks are causally independent: how often a task is resumed before a
/// deadline is a function of that task's own pending wake-up and period
/// alone. Two tasks with the same timing make the same progress, whatever
/// else either scheduler holds.
pub proof fn lemma_tasks_independent(a: TaskInstance, b: TaskInstance, deadline: int)
    requires
        a.next_wake == b.next_wake,
        a.period == b.period,
    ensures
        a.pending_before(deadline) == b.pending_before(deadline),
{
}

/// Toggling is an involution: two toggles in immediate succession return a
/// line to the level it had before the first of them.
pub proof fn lemma_toggle_involution(level: bool)
    ensures
        spec_toggle(spec_toggle(level)) == level,
{
}

/// An even number of level transitions returns a line to its starting
/// level; an odd number leaves it at the complement.
pub proof fn lemma_transition_parity(start: bool, transitions: int)
    ensures
        transitions % 2 == 0 ==> level_after(start, transitions) == start,
        transitions % 2 != 0 ==> level_after(start, transitions) == !start,
{
}

} // verus!
