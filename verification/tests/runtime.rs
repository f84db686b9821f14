use coop_sched::handle::Board;
use coop_sched::handle::InitError;
use coop_sched::sched::Scheduler;
use coop_sched::sched::SpawnError;
use coop_sched::task::EventKind;
use coop_sched::task::TaskBody;

const LINE_A: u32 = 8;
const LINE_B: u32 = 9;

fn booted_runtime() -> Scheduler {
    let mut board = Board::init();
    let a = board.acquire(LINE_A).expect("line A is fresh at boot");
    let b = board.acquire(LINE_B).expect("line B is fresh at boot");
    let mut sched = Scheduler::new(2, 1);
    sched.spawn_toggle(a, 500).expect("first toggle slot is free");
    sched.spawn_toggle(b, 200).expect("second toggle slot is free");
    sched.spawn_heartbeat(10_000).expect("heartbeat slot is free");
    sched
}

fn toggle_count_on(sched: &Scheduler, line: u32) -> usize {
    sched
        .log
        .iter()
        .filter(|e| matches!(e.kind, EventKind::Toggled { line: l } if l == line))
        .count()
}

fn heartbeat_count(sched: &Scheduler) -> usize {
    sched
        .log
        .iter()
        .filter(|e| matches!(e.kind, EventKind::Heartbeat))
        .count()
}

fn level_of(sched: &Scheduler, id: usize) -> bool {
    match sched.tasks[id].body {
        TaskBody::Toggle { level, .. } => level,
        TaskBody::Heartbeat => panic!("task {} owns no line", id),
    }
}

#[test]
fn toggle_flips_level() {
    let mut board = Board::init();
    let mut h = board.acquire(LINE_A).expect("line A is fresh");
    assert_eq!(h.line, LINE_A);
    assert!(!h.level);
    h.toggle();
    assert!(h.level);
}

#[test]
fn double_toggle_restores_level() {
    let mut board = Board::init();
    let mut h = board.acquire(LINE_A).expect("line A is fresh");
    let before = h.level;
    h.toggle();
    h.toggle();
    assert_eq!(h.level, before);
}

#[test]
fn set_level_then_toggle_complements() {
    let mut board = Board::init();
    let mut h = board.acquire(LINE_A).expect("line A is fresh");
    h.set_level(true);
    h.toggle();
    assert!(!h.level);
}

#[test]
fn board_yields_each_line_once() {
    let mut board = Board::init();
    let a = board.acquire(LINE_A).expect("line A is fresh");
    assert_eq!(a.line, LINE_A);
    assert!(matches!(
        board.acquire(LINE_A),
        Err(InitError::LineAlreadyAcquired)
    ));
    let b = board.acquire(LINE_B).expect("line B is still fresh");
    assert_eq!(b.line, LINE_B);
}

#[test]
fn third_toggle_spawn_exhausts_pool() {
    let mut board = Board::init();
    let a = board.acquire(LINE_A).expect("line A is fresh");
    let b = board.acquire(LINE_B).expect("line B is fresh");
    let c = board.acquire(10).expect("a third line is fresh");
    let mut sched = Scheduler::new(2, 1);
    assert_eq!(sched.spawn_toggle(a, 500), Ok(0));
    assert_eq!(sched.spawn_toggle(b, 200), Ok(1));
    assert_eq!(sched.spawn_toggle(c, 300), Err(SpawnError::PoolExhausted));
    // No partial task state was created by the failed spawn.
    assert_eq!(sched.tasks.len(), 2);
    assert_eq!(sched.toggle_live, 2);
    // The existing tasks are undisturbed and keep their cadence.
    sched.run_until(1000);
    assert_eq!(sched.tasks[0].fired, 2);
    assert_eq!(sched.tasks[1].fired, 5);
}

#[test]
fn second_heartbeat_spawn_exhausts_pool() {
    let mut sched = Scheduler::new(2, 1);
    assert_eq!(sched.spawn_heartbeat(10_000), Ok(0));
    assert_eq!(sched.spawn_heartbeat(10_000), Err(SpawnError::PoolExhausted));
    assert_eq!(sched.tasks.len(), 1);
}

#[test]
fn zero_capacity_pool_rejects_first_spawn() {
    let mut board = Board::init();
    let a = board.acquire(LINE_A).expect("line A is fresh");
    let mut sched = Scheduler::new(0, 0);
    assert_eq!(sched.spawn_toggle(a, 500), Err(SpawnError::PoolExhausted));
    assert_eq!(sched.spawn_heartbeat(10_000), Err(SpawnError::PoolExhausted));
    assert!(sched.tasks.is_empty());
    assert!(sched.log.is_empty());
}

#[test]
fn boot_scenario_toggle_counts_after_one_second() {
    let mut sched = booted_runtime();
    sched.run_until(1000);
    // Line A (500 ms) toggles at 0 and 500; line B (200 ms) at 0, 200,
    // 400, 600 and 800. The heartbeat (10 s) has not run yet.
    assert_eq!(toggle_count_on(&sched, LINE_A), 2);
    assert_eq!(toggle_count_on(&sched, LINE_B), 5);
    assert_eq!(heartbeat_count(&sched), 0);
    // Two transitions return line A to its initial low level; five leave
    // line B at the complement.
    assert!(!level_of(&sched, 0));
    assert!(level_of(&sched, 1));
    assert_eq!(sched.now, 1000);
    // The log reports every resumption and nothing else.
    let resumptions: u64 = sched.tasks.iter().map(|t| t.fired).sum();
    assert_eq!(sched.log.len() as u64, resumptions);
}

#[test]
fn heartbeat_first_event_not_before_ten_seconds() {
    let mut sched = booted_runtime();
    sched.run_until(10_000);
    assert_eq!(heartbeat_count(&sched), 0);
    sched.run_until(10_001);
    assert_eq!(heartbeat_count(&sched), 1);
    let first = sched
        .log
        .iter()
        .find(|e| matches!(e.kind, EventKind::Heartbeat))
        .expect("one heartbeat ran");
    assert!(first.time >= 10_000);
}

#[test]
fn intervals_between_resumptions_at_least_period() {
    let mut sched = booted_runtime();
    sched.run_until(30_000);
    let periods = [500u64, 200, 10_000];
    for (j, e) in sched.log.iter().enumerate() {
        for later in sched.log.iter().skip(j + 1) {
            if later.task == e.task {
                assert!(later.time - e.time >= periods[e.task]);
            }
        }
    }
}

#[test]
fn transition_count_stays_within_one_of_window_over_period() {
    let mut board = Board::init();
    let h = board.acquire(LINE_A).expect("line A is fresh");
    let mut sched = Scheduler::new(1, 0);
    sched.spawn_toggle(h, 7).expect("slot is free");
    sched.run_until(50);
    // Wake-ups at 0, 7, ..., 49: eight transitions; floor(50 / 7) is 7.
    assert_eq!(sched.tasks[0].fired, 8);
    let floor = 50u64 / 7;
    assert!(sched.tasks[0].fired <= floor + 1);
    assert!(sched.tasks[0].fired + 1 >= floor);
}

#[test]
fn simultaneous_expiry_resumes_both_tasks() {
    let mut board = Board::init();
    let a = board.acquire(LINE_A).expect("line A is fresh");
    let b = board.acquire(LINE_B).expect("line B is fresh");
    let mut sched = Scheduler::new(2, 0);
    sched.spawn_toggle(a, 100).expect("slot is free");
    sched.spawn_toggle(b, 100).expect("slot is free");
    sched.run_until(101);
    // Both timers expired at 0 and 100; which task ran first at each
    // instant is unspecified, but each was resumed exactly twice.
    assert_eq!(sched.tasks[0].fired, 2);
    assert_eq!(sched.tasks[1].fired, 2);
    assert_eq!(sched.log.len(), 4);
}

#[test]
fn task_progress_is_independent_of_other_tasks() {
    // The primary toggle task alone...
    let mut board = Board::init();
    let a = board.acquire(LINE_A).expect("line A is fresh");
    let mut solo = Scheduler::new(1, 0);
    solo.spawn_toggle(a, 500).expect("slot is free");
    solo.run_until(1_700);
    // ...makes exactly the same progress as beside the secondary toggle
    // and the heartbeat: no phase relationship ties the tasks together.
    let mut full = booted_runtime();
    full.run_until(1_700);
    assert_eq!(solo.tasks[0].fired, full.tasks[0].fired);
    let solo_times: Vec<u64> = solo.log.iter().map(|e| e.time).collect();
    let full_times: Vec<u64> = full
        .log
        .iter()
        .filter(|e| e.task == 0)
        .map(|e| e.time)
        .collect();
    assert_eq!(solo_times, full_times);
}

#[test]
fn scheduler_parks_until_nearest_timer() {
    let mut sched = Scheduler::new(2, 1);
    assert_eq!(sched.next_wake_time(), None);
    sched.spawn_heartbeat(10_000).expect("slot is free");
    assert_eq!(sched.next_wake_time(), Some(10_000));
    let mut board = Board::init();
    let a = board.acquire(LINE_A).expect("line A is fresh");
    sched.spawn_toggle(a, 500).expect("slot is free");
    assert_eq!(sched.next_wake_time(), Some(0));
    sched.run_until(1);
    assert_eq!(sched.next_wake_time(), Some(500));
}

#[test]
fn idle_run_only_advances_clock() {
    let mut sched = Scheduler::new(2, 1);
    sched.run_until(5_000);
    assert!(sched.log.is_empty());
    assert_eq!(sched.now, 5_000);
    // A toggle spawned after an idle stretch starts at the current time.
    let mut board = Board::init();
    let a = board.acquire(LINE_A).expect("line A is fresh");
    sched.spawn_toggle(a, 500).expect("slot is free");
    assert_eq!(sched.tasks[0].next_wake, 5_000);
}

#[test]
fn resumption_is_never_early() {
    let mut sched = booted_runtime();
    sched.run_until(20_000);
    let periods = [500u64, 200, 10_000];
    let origins = [0u64, 0, 10_000];
    for e in sched.log.iter() {
        // Every resumption happens at a scheduled wake-up of its own task,
        // never before the task's period elapsed since the previous one.
        assert!(e.time >= origins[e.task]);
        assert_eq!((e.time - origins[e.task]) % periods[e.task], 0);
    }
}
