//! The task pool and the cooperative scheduler.
//!
//! A [`Scheduler`] multiplexes a bounded set of periodic task instances on
//! one execution context. Spawning admits an instance into a template's
//! fixed-capacity pool or fails with [`SpawnError::PoolExhausted`] leaving
//! the scheduler untouched. [`Scheduler::run_until`] repeatedly resumes the
//! task whose timer expires earliest, stamps a diagnostic event, and parks
//! once every pending wake-up at or past the deadline.

use vstd::prelude::*;
use crate::handle::ResourceHandle;
use crate::task::Event;
use crate::task::EventKind;
use crate::task::TaskBody;
use crate::task::TaskInstance;
use crate::task::event_matches;
use crate::task::level_after;
use crate::task::on_wake_grid;
use crate::task::same_template;
use crate::timing::lemma_wakes_before_nonneg;
use crate::timing::lemma_wakes_before_step;
use vstd::arithmetic::div_mod::lemma_mod_multiples_basic;
use vstd::arithmetic::mul::lemma_mul_increases;
use vstd::arithmetic::mul::lemma_mul_is_commutative;
use vstd::arithmetic::mul::lemma_mul_is_distributive_add_other_way;
use vstd::arithmetic::mul::lemma_mul_nonnegative;

verus! {

/// Why a spawn request was rejected.
#[derive(Clone, Copy, Debug, PartialEq, Eq, Structural)]
pub enum SpawnError {
    /// The template's pool already holds as many live instances as its
    /// declared capacity; no slot was allocated and nothing changed.
    PoolExhausted,
}

/// How many instances in `tasks` are toggle instances (`toggle` true) or
/// heartbeat instances (`toggle` false).
pub open spec fn live_count(tasks: Seq<TaskInstance>, toggle: bool) -> int
    decreases tasks.len(),
{
    if tasks.len() == 0 {
        0
    } else {
        live_count(tasks.drop_last(), toggle)
            + if tasks.last().is_toggle() == toggle {
                1int
            } else {
                0int
            }
    }
}

/// Admitting one instance raises its template's live count by one and
/// leaves the other template's count alone.
pub proof fn lemma_live_count_push(tasks: Seq<TaskInstance>, t: TaskInstance, toggle: bool)
    ensures
        live_count(tasks.push(t), toggle) == live_count(tasks, toggle)
            + if t.is_toggle() == toggle {
                1int
            } else {
                0int
            },
{
    assert(tasks.push(t).drop_last() =~= tasks);
    assert(tasks.push(t).last() == t);
}

/// Live counts depend only on which template each instance came from.
pub proof fn lemma_live_count_congruent(s1: Seq<TaskInstance>, s2: Seq<TaskInstance>, toggle: bool)
    requires
        s1.len() == s2.len(),
        forall|i: int| 0 <= i < s1.len() ==> s1[i].is_toggle() == s2[i].is_toggle(),
    ensures
        live_count(s1, toggle) == live_count(s2, toggle),
    decreases s1.len(),
{
    if s1.len() > 0 {
        assert(forall|i: int|
            0 <= i < s1.drop_last().len() ==> s1.drop_last()[i].is_toggle()
                == s2.drop_last()[i].is_toggle());
        lemma_live_count_congruent(s1.drop_last(), s2.drop_last(), toggle);
    }
}

/// How many events of task `t` the diagnostic log holds.
pub open spec fn event_count(log: Seq<Event>, t: int) -> int
    decreases log.len(),
{
    if log.len() == 0 {
        0
    } else {
        event_count(log.drop_last(), t)
            + if log.last().task == t {
                1int
            } else {
                0int
            }
    }
}

/// Logging one event raises its own task's tally by one and leaves every
/// other task's tally alone.
pub proof fn lemma_event_count_push(log: Seq<Event>, e: Event, t: int)
    ensures
        event_count(log.push(e), t) == event_count(log, t)
            + if e.task == t {
                1int
            } else {
                0int
            },
{
    assert(log.push(e).drop_last() =~= log);
    assert(log.push(e).last() == e);
}

/// A task no event names has a tally of zero.
pub proof fn lemma_event_count_absent(log: Seq<Event>, t: int)
    requires
        forall|j: int| 0 <= j < log.len() ==> (#[trigger] log[j]).task != t,
    ensures
        event_count(log, t) == 0,
    decreases log.len(),
{
    if log.len() > 0 {
        lemma_event_count_absent(log.drop_last(), t);
    }
}

/// Total number of resumptions the scheduler still owes strictly before
/// `deadline`: the run loop's termination measure.
pub open spec fn total_pending(tasks: Seq<TaskInstance>, deadline: int) -> int
    decreases tasks.len(),
{
    if tasks.len() == 0 {
        0
    } else {
        total_pending(tasks.drop_last(), deadline) + tasks.last().pending_before(deadline)
    }
}

/// The owed-resumption total is never negative.
pub proof fn lemma_total_pending_nonneg(tasks: Seq<TaskInstance>, deadline: int)
    ensures
        total_pending(tasks, deadline) >= 0,
    decreases tasks.len(),
{
    if tasks.len() > 0 {
        lemma_total_pending_nonneg(tasks.drop_last(), deadline);
        let last = tasks.last();
        lemma_wakes_before_nonneg(last.next_wake as int, last.period as int, deadline);
    }
}

/// Once no task has a wake-up left before the deadline, nothing is owed.
pub proof fn lemma_total_pending_zero(tasks: Seq<TaskInstance>, deadline: int)
    requires
        forall|i: int|
            0 <= i < tasks.len() ==> (#[trigger] tasks[i]).pending_before(deadline) == 0,
    ensures
        total_pending(tasks, deadline) == 0,
    decreases tasks.len(),
{
    if tasks.len() > 0 {
        lemma_total_pending_zero(tasks.drop_last(), deadline);
    }
}

/// Changing one task changes the owed total by that task's own difference.
pub proof fn lemma_total_pending_update(
    s1: Seq<TaskInstance>,
    s2: Seq<TaskInstance>,
    t: int,
    deadline: int,
)
    requires
        s1.len() == s2.len(),
        0 <= t < s1.len(),
        forall|i: int| 0 <= i < s1.len() && i != t ==> s1[i] == s2[i],
    ensures
        total_pending(s2, deadline) == total_pending(s1, deadline)
            - s1[t].pending_before(deadline) + s2[t].pending_before(deadline),
    decreases s1.len(),
{
    if t == s1.len() - 1 {
        assert(s1.drop_last() =~= s2.drop_last());
    } else {
        assert(forall|i: int|
            0 <= i < s1.drop_last().len() && i != t ==> s1.drop_last()[i] == s2.drop_last()[i]);
        lemma_total_pending_update(s1.drop_last(), s2.drop_last(), t, deadline);
    }
}

/// The scheduler: process-wide state from boot to reset. It owns every
/// live task instance and the set of pending timer entries (each
/// instance's `next_wake` field), and it carries the diagnostic log.
pub struct Scheduler {
    /// Declared pool capacity of the toggle-task template.
    pub toggle_capacity: usize,
    /// Declared pool capacity of the heartbeat template.
    pub heartbeat_capacity: usize,
    /// Live toggle instances; kept equal to the count inside `tasks`.
    pub toggle_live: usize,
    /// Live heartbeat instances; kept equal to the count inside `tasks`.
    pub heartbeat_live: usize,
    /// Every live task instance, indexed by task identity.
    pub tasks: Vec<TaskInstance>,
    /// The current absolute time, in ticks.
    pub now: u64,
    /// Every diagnostic event emitted so far, in emission order.
    pub log: Vec<Event>,
}

impl Scheduler {
    /// The scheduler's invariant, established at boot and preserved by
    /// every operation:
    /// - the live counters match the pool contents and respect capacity;
    /// - every instance is well formed and its pending wake-up is not in
    ///   the past;
    /// - every logged event names a live task, was stamped no later than
    ///   the current time and matches its task's template; successive
    ///   events of one task are at least that task's period apart;
    /// - every event lies on its task's wake-up grid (resumptions are
    ///   never early), and each task has exactly as many logged events as
    ///   resumptions.
    pub open spec fn wf(&self) -> bool {
        &&& self.toggle_live == live_count(self.tasks@, true)
        &&& self.heartbeat_live == live_count(self.tasks@, false)
        &&& self.toggle_live <= self.toggle_capacity
        &&& self.heartbeat_live <= self.heartbeat_capacity
        &&& forall|i: int| 0 <= i < self.tasks@.len() ==> (#[trigger] self.tasks@[i]).wf()
        &&& forall|i: int|
            0 <= i < self.tasks@.len() ==> (#[trigger] self.tasks@[i]).next_wake >= self.now
        &&& forall|j: int|
            0 <= j < self.log@.len() ==> (#[trigger] self.log@[j]).task < self.tasks@.len()
        &&& forall|j: int| 0 <= j < self.log@.len() ==> (#[trigger] self.log@[j]).time <= self.now
        &&& forall|j: int|
            0 <= j < self.log@.len() ==> (#[trigger] self.log@[j]).time
                + self.tasks@[self.log@[j].task as int].period
                <= self.tasks@[self.log@[j].task as int].next_wake
        &&& forall|j: int, k: int|
            0 <= j < k < self.log@.len() && (#[trigger] self.log@[j]).task
                == (#[trigger] self.log@[k]).task ==> self.log@[j].time
                + self.tasks@[self.log@[j].task as int].period <= self.log@[k].time
        &&& forall|j: int|
            0 <= j < self.log@.len() ==> event_matches(
                #[trigger] self.log@[j],
                self.tasks@[self.log@[j].task as int],
            )
        &&& forall|j: int|
            0 <= j < self.log@.len() ==> on_wake_grid(
                (#[trigger] self.log@[j]).time as int,
                self.tasks@[self.log@[j].task as int].origin as int,
                self.tasks@[self.log@[j].task as int].period as int,
                self.tasks@[self.log@[j].task as int].fired as int,
            )
        &&& forall|i: int|
            0 <= i < self.tasks@.len() ==> event_count(self.log@, i) == (
            #[trigger] self.tasks@[i]).fired
    }

    /// A fresh scheduler at boot time: empty pools, empty log, clock at
    /// zero, with the two templates' declared capacities.
    pub fn new(toggle_capacity: usize, heartbeat_capacity: usize) -> (s: Scheduler)
        ensures
            s.wf(),
            s.toggle_capacity == toggle_capacity,
            s.heartbeat_capacity == heartbeat_capacity,
            s.toggle_live == 0,
            s.heartbeat_live == 0,
            s.tasks@ =~= Seq::<TaskInstance>::empty(),
            s.log@ =~= Seq::<Event>::empty(),
            s.now == 0,
    {
        Scheduler {
            toggle_capacity,
            heartbeat_capacity,
            toggle_live: 0,
            heartbeat_live: 0,
            tasks: Vec::new(),
            now: 0,
            log: Vec::new(),
        }
    }

    /// The toggle instance a spawn at time `at` admits: it takes ownership
    /// of the handle's line and acts immediately, then waits.
    pub open spec fn toggle_instance(handle: ResourceHandle, period: u64, at: u64) -> TaskInstance {
        TaskInstance {
            body: TaskBody::Toggle { line: handle.line, level: handle.level },
            period,
            origin: at,
            next_wake: at,
            fired: 0,
        }
    }

    /// The heartbeat instance a spawn at time `at` admits: it waits one
    /// full period first, then acts.
    pub open spec fn heartbeat_instance(period: u64, at: u64) -> TaskInstance {
        TaskInstance {
            body: TaskBody::Heartbeat,
            period,
            origin: (at + period) as u64,
            next_wake: (at + period) as u64,
            fired: 0,
        }
    }

    /// Admit one toggle instance owning `handle`, to be resumed every
    /// `period` ticks starting immediately. Succeeds if and only if the
    /// toggle pool still has a free slot; on failure nothing is allocated
    /// and the scheduler is unchanged.
    pub fn spawn_toggle(&mut self, handle: ResourceHandle, period: u64) -> (r: Result<
        usize,
        SpawnError,
    >)
        requires
            old(self).wf(),
            period >= 1,
        ensures
            final(self).wf(),
            final(self).toggle_capacity == old(self).toggle_capacity,
            final(self).heartbeat_capacity == old(self).heartbeat_capacity,
            final(self).heartbeat_live == old(self).heartbeat_live,
            final(self).now == old(self).now,
            final(self).log@ =~= old(self).log@,
            r is Ok <==> old(self).toggle_live < old(self).toggle_capacity,
            match r {
                Ok(id) => {
                    &&& id == old(self).tasks@.len()
                    &&& final(self).tasks@ =~= old(self).tasks@.push(
                        Self::toggle_instance(handle, period, old(self).now),
                    )
                    &&& final(self).toggle_live == old(self).toggle_live + 1
                },
                Err(e) => {
                    &&& e == SpawnError::PoolExhausted
                    &&& final(self).tasks@ =~= old(self).tasks@
                    &&& final(self).toggle_live == old(self).toggle_live
                },
            },
    {
        if self.toggle_live >= self.toggle_capacity {
            return Err(SpawnError::PoolExhausted);
        }
        let id = self.tasks.len();
        let inst = TaskInstance {
            body: TaskBody::Toggle { line: handle.line, level: handle.level },
            period,
            origin: self.now,
            next_wake: self.now,
            fired: 0,
        };
        proof {
            lemma_live_count_push(self.tasks@, inst, true);
            lemma_live_count_push(self.tasks@, inst, false);
            lemma_event_count_absent(self.log@, id as int);
        }
        self.tasks.push(inst);
        self.toggle_live = self.toggle_live + 1;
        Ok(id)
    }

    /// Admit one heartbeat instance, to be resumed every `period` ticks
    /// starting one period from now. Succeeds if and only if the heartbeat
    /// pool still has a free slot; on failure nothing is allocated and the
    /// scheduler is unchanged.
    pub fn spawn_heartbeat(&mut self, period: u64) -> (r: Result<usize, SpawnError>)
        requires
            old(self).wf(),
            period >= 1,
            old(self).now + period <= u64::MAX,
        ensures
            final(self).wf(),
            final(self).toggle_capacity == old(self).toggle_capacity,
            final(self).heartbeat_capacity == old(self).heartbeat_capacity,
            final(self).toggle_live == old(self).toggle_live,
            final(self).now == old(self).now,
            final(self).log@ =~= old(self).log@,
            r is Ok <==> old(self).heartbeat_live < old(self).heartbeat_capacity,
            match r {
                Ok(id) => {
                    &&& id == old(self).tasks@.len()
                    &&& final(self).tasks@ =~= old(self).tasks@.push(
                        Self::heartbeat_instance(period, old(self).now),
                    )
                    &&& final(self).heartbeat_live == old(self).heartbeat_live + 1
                },
                Err(e) => {
                    &&& e == SpawnError::PoolExhausted
                    &&& final(self).tasks@ =~= old(self).tasks@
                    &&& final(self).heartbeat_live == old(self).heartbeat_live
                },
            },
    {
        if self.heartbeat_live >= self.heartbeat_capacity {
            return Err(SpawnError::PoolExhausted);
        }
        let id = self.tasks.len();
        let inst = TaskInstance {
            body: TaskBody::Heartbeat,
            period,
            origin: self.now + period,
            next_wake: self.now + period,
            fired: 0,
        };
        proof {
            lemma_live_count_push(self.tasks@, inst, true);
            lemma_live_count_push(self.tasks@, inst, false);
            lemma_event_count_absent(self.log@, id as int);
        }
        self.tasks.push(inst);
        self.heartbeat_live = self.heartbeat_live + 1;
        Ok(id)
    }

    /// The task whose timer expires earliest, when any task is live. Ties
    /// between simultaneous expiries are broken arbitrarily; callers learn
    /// only that no other task wakes sooner.
    pub fn earliest_index(&self) -> (r: Option<usize>)
        ensures
            match r {
                Some(t) => {
                    &&& t < self.tasks@.len()
                    &&& forall|i: int|
                        0 <= i < self.tasks@.len() ==> self.tasks@[t as int].next_wake
                            <= (#[trigger] self.tasks@[i]).next_wake
                },
                None => self.tasks@.len() == 0,
            },
    {
        if self.tasks.len() == 0 {
            return None;
        }
        let mut best: usize = 0;
        let mut i: usize = 1;
        while i < self.tasks.len()
            invariant
                best < i,
                i <= self.tasks@.len(),
                forall|k: int|
                    0 <= k < i ==> self.tasks@[best as int].next_wake
                        <= (#[trigger] self.tasks@[k]).next_wake,
            decreases self.tasks@.len() - i,
        {
            if self.tasks[i].next_wake < self.tasks[best].next_wake {
                best = i;
            }
            i = i + 1;
        }
        Some(best)
    }

    /// Run the cooperative loop up to (but excluding) `deadline`, then park
    /// with the clock at `deadline`: repeatedly resume the task whose timer
    /// expires earliest, let it act and re-arm its timer one period later,
    /// and stamp one diagnostic event per resumption. A resumption is never
    /// early, and each task is resumed exactly once per scheduled wake-up
    /// before the deadline, so every task's progress depends only on its
    /// own timing, never on the other tasks'.
    pub fn run_until(&mut self, deadline: u64)
        requires
            old(self).wf(),
            forall|i: int|
                0 <= i < old(self).tasks@.len() ==> (#[trigger] old(self).tasks@[i]).period
                    <= u64::MAX - deadline,
        ensures
            final(self).wf(),
            final(self).toggle_capacity == old(self).toggle_capacity,
            final(self).heartbeat_capacity == old(self).heartbeat_capacity,
            final(self).toggle_live == old(self).toggle_live,
            final(self).heartbeat_live == old(self).heartbeat_live,
            final(self).now == if old(self).now >= deadline {
                old(self).now
            } else {
                deadline
            },
            final(self).tasks@.len() == old(self).tasks@.len(),
            forall|i: int|
                0 <= i < old(self).tasks@.len() ==> same_template(
                    old(self).tasks@[i],
                    #[trigger] final(self).tasks@[i],
                ),
            forall|i: int|
                0 <= i < old(self).tasks@.len() ==> (#[trigger] final(self).tasks@[i]).next_wake
                    >= deadline,
            forall|i: int|
                0 <= i < old(self).tasks@.len() ==> (#[trigger] final(self).tasks@[i]).fired
                    == old(self).tasks@[i].fired + old(self).tasks@[i].pending_before(
                    deadline as int,
                ),
            forall|i: int|
                0 <= i < old(self).tasks@.len() && old(self).tasks@[i].is_toggle() ==> (
                #[trigger] final(self).tasks@[i]).spec_level() == level_after(
                    old(self).tasks@[i].spec_level(),
                    old(self).tasks@[i].pending_before(deadline as int),
                ),
            old(self).log@.is_prefix_of(final(self).log@),
            final(self).log@.len() == old(self).log@.len() + total_pending(
                old(self).tasks@,
                deadline as int,
            ),
            forall|j: int|
                old(self).log@.len() <= j < final(self).log@.len() ==> old(self).now <= (
                #[trigger] final(self).log@[j]).time < deadline,
    {
        let ghost init = *self;
        proof {
            lemma_total_pending_nonneg(self.tasks@, deadline as int);
        }
        loop
            invariant
                self.wf(),
                self.toggle_capacity == init.toggle_capacity,
                self.heartbeat_capacity == init.heartbeat_capacity,
                self.toggle_live == init.toggle_live,
                self.heartbeat_live == init.heartbeat_live,
                self.tasks@.len() == init.tasks@.len(),
                forall|i: int|
                    0 <= i < init.tasks@.len() ==> (#[trigger] self.tasks@[i]).period
                        <= u64::MAX - deadline,
                forall|i: int|
                    0 <= i < init.tasks@.len() ==> same_template(
                        init.tasks@[i],
                        #[trigger] self.tasks@[i],
                    ),
                forall|i: int|
                    0 <= i < init.tasks@.len() ==> (#[trigger] self.tasks@[i]).fired
                        + self.tasks@[i].pending_before(deadline as int) == init.tasks@[i].fired
                        + init.tasks@[i].pending_before(deadline as int),
                forall|i: int|
                    0 <= i < init.tasks@.len() ==> (#[trigger] self.tasks@[i]).fired
                        >= init.tasks@[i].fired,
                forall|i: int|
                    0 <= i < init.tasks@.len() && init.tasks@[i].is_toggle() ==> (
                    #[trigger] self.tasks@[i]).spec_level() == level_after(
                        init.tasks@[i].spec_level(),
                        self.tasks@[i].fired - init.tasks@[i].fired,
                    ),
                self.log@.len() >= init.log@.len(),
                forall|j: int| 0 <= j < init.log@.len() ==> #[trigger] self.log@[j] == init.log@[j],
                self.log@.len() + total_pending(self.tasks@, deadline as int) == init.log@.len()
                    + total_pending(init.tasks@, deadline as int),
                forall|j: int|
                    init.log@.len() <= j < self.log@.len() ==> init.now <= (
                    #[trigger] self.log@[j]).time < deadline,
                self.now >= init.now,
                self.now == init.now || self.now < deadline,
                total_pending(self.tasks@, deadline as int) >= 0,
            ensures
                forall|i: int|
                    0 <= i < self.tasks@.len() ==> (#[trigger] self.tasks@[i]).next_wake
                        >= deadline,
            decreases total_pending(self.tasks@, deadline as int),
        {
            let t = match self.earliest_index() {
                None => { break },
                Some(t) => t,
            };
            let inst = self.tasks[t];
            if inst.next_wake >= deadline {
                break;
            }
            let ghost pre = *self;
            proof {
                // inst.fired fits below u64::MAX: it is at most
                // fired * period == next_wake - origin < deadline.
                if inst.fired > 0 {
                    lemma_mul_increases(inst.period as int, inst.fired as int);
                    lemma_mul_is_commutative(inst.fired as int, inst.period as int);
                }
            }
            self.now = inst.next_wake;
            let kind = match inst.body {
                TaskBody::Toggle { line, level: _ } => EventKind::Toggled { line },
                TaskBody::Heartbeat => EventKind::Heartbeat,
            };
            self.log.push(Event { task: t, time: inst.next_wake, kind });
            let new_body = match inst.body {
                TaskBody::Toggle { line, level } => TaskBody::Toggle { line, level: !level },
                TaskBody::Heartbeat => TaskBody::Heartbeat,
            };
            self.tasks[t] = TaskInstance {
                body: new_body,
                period: inst.period,
                origin: inst.origin,
                next_wake: inst.next_wake + inst.period,
                fired: inst.fired + 1,
            };
            proof {
                lemma_wakes_before_step(inst.next_wake as int, inst.period as int, deadline as int);
                lemma_total_pending_update(pre.tasks@, self.tasks@, t as int, deadline as int);
                lemma_total_pending_nonneg(self.tasks@, deadline as int);
                lemma_mul_is_distributive_add_other_way(
                    inst.period as int,
                    inst.fired as int,
                    1,
                );
                lemma_live_count_congruent(pre.tasks@, self.tasks@, true);
                lemma_live_count_congruent(pre.tasks@, self.tasks@, false);
                let ev = Event { task: t, time: inst.next_wake, kind };
                assert forall|i: int|
                    0 <= i < self.tasks@.len() implies event_count(self.log@, i) == (
                #[trigger] self.tasks@[i]).fired by {
                    lemma_event_count_push(pre.log@, ev, i);
                }
                // The new event sits on its task's grid: its stamp is the
                // pending wake-up, `inst.fired` whole periods past the
                // origin; the grid of every older event only lengthened.
                lemma_mod_multiples_basic(inst.fired as int, inst.period as int);
                lemma_mul_nonnegative(inst.fired as int, inst.period as int);
            }
        }
        proof {
            assert forall|i: int|
                0 <= i < init.tasks@.len() implies (#[trigger] self.tasks@[i]).pending_before(
                deadline as int,
            ) == 0 by {}
            lemma_total_pending_zero(self.tasks@, deadline as int);
            assert(init.log@ =~= self.log@.subrange(0, init.log@.len() as int));
        }
        if self.now < deadline {
            self.now = deadline;
        }
    }

    /// The absolute time of the nearest pending wake-up: how long the
    /// processor may park when no task is ready. `None` when no task is
    /// live.
    pub fn next_wake_time(&self) -> (r: Option<u64>)
        ensures
            match r {
                Some(w) => {
                    &&& exists|t: int|
                        0 <= t < self.tasks@.len() && (#[trigger] self.tasks@[t]).next_wake == w
                    &&& forall|i: int|
                        0 <= i < self.tasks@.len() ==> w <= (#[trigger] self.tasks@[i]).next_wake
                },
                None => self.tasks@.len() == 0,
            },
    {
        match self.earliest_index() {
            None => None,
            Some(t) => Some(self.tasks[t].next_wake),
        }
    }
}

} // verus!
