use bytes::BytesMut;
use schedulers::commands::{ExpectNothing, ExpectResult, ExpectTeamwork, WorkerCommands};
use schedulers::pool::{SchedulerConfig, MAX_THREADS};
use schedulers::scheduler::{Dispatch, ProcessOutcome, Scheduler, THREADS_PER_SCHEDULER};
use schedulers::worker::{Worker, WorkerAction, WorkerMetaRegion};

fn scheduler_at(idx: usize, completion: u8) -> Scheduler {
    Scheduler { idx, completion, team_work_buffer: BytesMut::new(), raw_workers: Vec::new() }
}

#[test]
fn process_without_token_does_nothing() {
    let mut s = scheduler_at(1, 0);
    let mut ring = vec![true, false, false];
    let out = s.process(&mut ring, WorkerCommands::CallBack);
    assert_eq!(out, ProcessOutcome::NotMyTurn);
    assert_eq!(s.completion, 0);
    assert_eq!(ring, vec![true, false, false]);
}

#[test]
fn process_dispatches_to_lowest_free_worker() {
    let mut s = scheduler_at(0, 0b0000_0111);
    let mut ring = vec![true, false];
    let out = s.process(&mut ring, WorkerCommands::CallBack);
    assert_eq!(out, ProcessOutcome::Dispatched { thread: 3, packed_command: 0b1001_1000 });
    assert_eq!(s.completion, 0b0000_1111);
    assert_eq!(ring, vec![true, false]);
    let out = s.process(&mut ring, WorkerCommands::TeamWork);
    assert_eq!(out, ProcessOutcome::Dispatched { thread: 4, packed_command: 0b1011_0000 });
    assert_eq!(s.completion, 0b0001_1111);
}

#[test]
fn process_skips_to_gap_in_mask() {
    let mut s = scheduler_at(0, 0b1011_1111);
    let mut ring = vec![true];
    let out = s.process(&mut ring, WorkerCommands::Pass);
    assert_eq!(out, ProcessOutcome::Dispatched { thread: 6, packed_command: 0b1001_0100 });
    assert_eq!(s.completion, 0xff);
}

#[test]
fn process_full_scheduler_passes_token() {
    let mut s = scheduler_at(1, 0xff);
    let mut ring = vec![false, true, false];
    let out = s.process(&mut ring, WorkerCommands::CallBack);
    assert_eq!(out, ProcessOutcome::Passed { to: 2 });
    assert_eq!(ring, vec![false, false, true]);
    assert_eq!(s.completion, 0xff);
    let mut last = scheduler_at(2, 0xff);
    let out = last.process(&mut ring, WorkerCommands::CallBack);
    assert_eq!(out, ProcessOutcome::Passed { to: 0 });
    assert_eq!(ring, vec![true, false, false]);
}

#[test]
fn config_new_and_default() {
    let c = SchedulerConfig::new(12, 8);
    assert_eq!(c.max_threads(), 12);
    assert_eq!(c.threads_per_scheduler(), 8);
    assert_eq!(c.scheduler_count(), 0);
    let d = SchedulerConfig::default();
    assert_eq!(d.max_threads(), MAX_THREADS);
    assert_eq!(d.threads_per_scheduler(), THREADS_PER_SCHEDULER);
    assert_eq!(MAX_THREADS, 12);
    assert_eq!(THREADS_PER_SCHEDULER, 8);
}

#[test]
fn add_scheduler_registers_by_type() {
    let mut ring = Vec::new();
    let mut c = SchedulerConfig::new(12, 8);
    assert!(c.can_add_scheduler(16));
    assert_eq!(c.add_scheduler(&mut ring, 7, 16), 0);
    assert!(c.can_add_scheduler(16));
    assert_eq!(c.add_scheduler(&mut ring, 9, 16), 1);
    assert!(!c.can_add_scheduler(16));
    assert!(c.can_add_scheduler(17));
    assert_eq!(c.add_scheduler(&mut ring, 7, 17), 2);
    assert_eq!(c.scheduler_count(), 3);
    assert_eq!(ring, vec![false, false, false]);
    assert_eq!(c.slot(0), 0);
    assert_eq!(c.slot(2), 2);
    assert_eq!(c.targets(7), Some(&vec![0, 2]));
    assert_eq!(c.targets(9), Some(&vec![1]));
    assert_eq!(c.targets(5), None);
    let ws = c.workers(2);
    assert_eq!(ws.len(), 8);
    for (i, w) in ws.iter().enumerate() {
        assert_eq!(*w, Worker { meta: WorkerMetaRegion { thread_idx: i as u8, done: 2 } });
    }
    assert_eq!(c.busy_mask(1), 0);
}

#[test]
fn add_scheduler_makes_configured_worker_count() {
    let mut ring = Vec::new();
    let mut c = SchedulerConfig::new(12, 3);
    c.add_scheduler(&mut ring, 1, 4);
    assert_eq!(c.workers(0).len(), 3);
    assert!(!c.can_add_scheduler(8));
}

#[test]
fn slots_continue_across_pools() {
    let mut ring = Vec::new();
    let mut a = SchedulerConfig::new(12, 8);
    a.add_scheduler(&mut ring, 1, 16);
    let mut b = SchedulerConfig::new(12, 8);
    b.add_scheduler(&mut ring, 1, 16);
    b.add_scheduler(&mut ring, 2, 16);
    assert_eq!(a.slot(0), 0);
    assert_eq!(b.slot(0), 1);
    assert_eq!(b.slot(1), 2);
    assert_eq!(b.targets(1), Some(&vec![0]));
    assert_eq!(ring.len(), 3);
    assert!(b.fits_ring(&ring));
    assert!(!b.fits_ring(&vec![false]));
}

#[test]
fn apply_needs_schedulers_and_enough_threads() {
    let mut ring = Vec::new();
    let c = SchedulerConfig::new(12, 8);
    assert!(!c.can_apply(&ring, 12));
    let mut c = SchedulerConfig::new(30, 8);
    c.add_scheduler(&mut ring, 1, 16);
    assert!(!c.can_apply(&ring, 12));
    assert!(c.can_apply(&ring, 15));
    assert!(!c.can_apply(&Vec::new(), 15));
}

#[test]
fn apply_starts_token_and_masks_last_scheduler() {
    let mut ring = Vec::new();
    let mut c = SchedulerConfig::new(12, 8);
    c.add_scheduler(&mut ring, 1, 12);
    c.add_scheduler(&mut ring, 1, 12);
    let h = c.apply(&mut ring, 12);
    assert_eq!(ring, vec![true, false]);
    assert_eq!(h.busy_mask(0), 0);
    // 12 usable threads leave 4 over after a group of 8.
    assert_eq!(h.busy_mask(1), 0b1111_0000);
}

#[test]
fn apply_gives_token_to_first_slot_of_ring() {
    let mut ring = Vec::new();
    let mut a = SchedulerConfig::new(16, 8);
    a.add_scheduler(&mut ring, 1, 16);
    let mut b = SchedulerConfig::new(16, 8);
    b.add_scheduler(&mut ring, 2, 16);
    let hb = b.apply(&mut ring, 16);
    // The token goes to the first scheduler ever made, which is in pool `a`.
    assert_eq!(ring, vec![true, false]);
    assert!(!hb.token_holder_is_target(&ring, 2));
    let ha = a.apply(&mut ring, 16);
    assert!(ha.token_holder_is_target(&ring, 1));
}

#[test]
fn apply_with_more_threads_asked_than_available() {
    let mut ring = Vec::new();
    let mut c = SchedulerConfig::new(20, 8);
    c.add_scheduler(&mut ring, 1, 12);
    // |20 - 12| = 8, so 12 - 8 = 4 threads remain usable.
    let h = c.apply(&mut ring, 12);
    assert_eq!(h.busy_mask(0), 0b1111_0000);
}

#[test]
fn apply_with_whole_groups_marks_all_taken() {
    let mut ring = Vec::new();
    let mut c = SchedulerConfig::new(8, 8);
    c.add_scheduler(&mut ring, 1, 16);
    let h = c.apply(&mut ring, 16);
    assert_eq!(h.busy_mask(0), 0xff);
}

#[test]
fn any_refuses_unknown_type() {
    let mut ring = Vec::new();
    let mut c = SchedulerConfig::new(12, 8);
    c.add_scheduler(&mut ring, 1, 16);
    let mut h = c.apply(&mut ring, 12);
    assert!(h.token_holder_is_target(&ring, 2));
    let r = h.any::<ExpectResult>(&mut ring, 2);
    assert_eq!(r, Err("wrong type".to_string()));
    assert_eq!(h.busy_mask(0), 0b1111_0000);
    assert_eq!(ring, vec![true]);
}

#[test]
fn any_dispatches_to_token_holder() {
    let mut ring = Vec::new();
    let mut c = SchedulerConfig::new(16, 8);
    c.add_scheduler(&mut ring, 1, 16);
    c.add_scheduler(&mut ring, 1, 16);
    let mut h = c.apply(&mut ring, 16);
    assert!(h.token_holder_is_target(&ring, 1));
    let r = h.any::<ExpectResult>(&mut ring, 1).unwrap();
    assert_eq!(r, Dispatch { scheduler: 0, outcome: ProcessOutcome::Dispatched { thread: 0, packed_command: 0b1001_1000 } });
    let r = h.any::<ExpectTeamwork>(&mut ring, 1).unwrap();
    assert_eq!(r, Dispatch { scheduler: 0, outcome: ProcessOutcome::Dispatched { thread: 1, packed_command: 0b1011_0000 } });
    assert_eq!(h.busy_mask(0), 0b0000_0011);
    let word = match r.outcome {
        ProcessOutcome::Dispatched { packed_command, .. } => packed_command,
        _ => unreachable!(),
    };
    assert_eq!(Worker::read_command(word), WorkerAction { execute: true, is_teamwork: true, has_callback: false });
}

#[test]
fn any_passes_token_when_full_and_next_takes_over() {
    let mut ring = Vec::new();
    let mut c = SchedulerConfig::new(16, 8);
    c.add_scheduler(&mut ring, 1, 16);
    c.add_scheduler(&mut ring, 1, 16);
    let mut h = c.apply(&mut ring, 16);
    for t in 0..8usize {
        let r = h.any::<ExpectNothing>(&mut ring, 1).unwrap();
        assert_eq!(r.scheduler, 0);
        assert!(matches!(r.outcome, ProcessOutcome::Dispatched { thread, .. } if thread == t));
    }
    assert_eq!(h.busy_mask(0), 0xff);
    let r = h.any::<ExpectNothing>(&mut ring, 1).unwrap();
    assert_eq!(r, Dispatch { scheduler: 0, outcome: ProcessOutcome::Passed { to: 1 } });
    assert_eq!(ring, vec![false, true]);
    // The last scheduler of 16 usable threads keeps none free: it passes on.
    let r = h.any::<ExpectNothing>(&mut ring, 1).unwrap();
    assert_eq!(r, Dispatch { scheduler: 1, outcome: ProcessOutcome::Passed { to: 0 } });
    assert_eq!(ring, vec![true, false]);
}

#[test]
fn passing_token_reaches_scheduler_of_other_pool() {
    let mut ring = Vec::new();
    let mut a = SchedulerConfig::new(8, 8);
    a.add_scheduler(&mut ring, 1, 16);
    let mut b = SchedulerConfig::new(16, 8);
    b.add_scheduler(&mut ring, 1, 16);
    // Usable threads 8 leave none over: pool `a`'s only scheduler is full.
    let mut ha = a.apply(&mut ring, 16);
    let mut hb = b.apply(&mut ring, 16);
    assert_eq!(ring, vec![true, false]);
    let r = ha.any::<ExpectNothing>(&mut ring, 1).unwrap();
    assert_eq!(r, Dispatch { scheduler: 0, outcome: ProcessOutcome::Passed { to: 1 } });
    assert!(hb.token_holder_is_target(&ring, 1));
    assert!(!ha.token_holder_is_target(&ring, 1));
    let r = hb.any::<ExpectNothing>(&mut ring, 1).unwrap();
    assert_eq!(r.scheduler, 0);
    assert_eq!(r.outcome, ProcessOutcome::Passed { to: 0 });
}

#[test]
fn any_takes_first_listed_holder() {
    let mut ring = Vec::new();
    let mut c = SchedulerConfig::new(16, 8);
    c.add_scheduler(&mut ring, 1, 16);
    c.add_scheduler(&mut ring, 1, 16);
    let mut h = c.apply(&mut ring, 16);
    // Two slots hold the token: the first scheduler of the list takes the job.
    ring[1] = true;
    let r = h.any::<ExpectResult>(&mut ring, 1).unwrap();
    assert_eq!(r.scheduler, 0);
}

#[test]
fn token_elsewhere_blocks_other_type() {
    let mut ring = Vec::new();
    let mut c = SchedulerConfig::new(16, 8);
    c.add_scheduler(&mut ring, 1, 16);
    c.add_scheduler(&mut ring, 2, 16);
    let h = c.apply(&mut ring, 16);
    assert!(h.token_holder_is_target(&ring, 1));
    assert!(!h.token_holder_is_target(&ring, 2));
}

#[test]
fn release_undoes_dispatch() {
    let mut ring = Vec::new();
    let mut c = SchedulerConfig::new(12, 8);
    c.add_scheduler(&mut ring, 1, 12);
    let mut h = c.apply(&mut ring, 12);
    let before = h.busy_mask(0);
    let r = h.any::<ExpectResult>(&mut ring, 1).unwrap();
    let thread = match r.outcome {
        ProcessOutcome::Dispatched { thread, .. } => thread,
        _ => unreachable!(),
    };
    assert_ne!(h.busy_mask(0), before);
    let worker = h.workers(0)[thread];
    h.release(&worker);
    assert_eq!(h.busy_mask(0), before);
    assert_eq!(h.targets(1), Some(&vec![0]));
    assert_eq!(ring, vec![true]);
}
