use bytes::BytesMut;
use schedulers::bits::{set_bit, clear_bit, unavailable_mask};
use schedulers::commands::{ExpectNothing, ExpectResult, ExpectTeamwork, WorkerCommands, WorkerResults};
use schedulers::from_bytes::FromBytes;
use schedulers::scheduler::Scheduler;
use schedulers::worker::{Worker, WorkerAction, WorkerMetaRegion, CALLBACK, EXECUTE, PASS, TEAM_WORK};

fn lone_scheduler(completion: u8) -> Scheduler {
    Scheduler { idx: 0, completion, team_work_buffer: BytesMut::new(), raw_workers: Vec::new() }
}

#[test]
fn packs_execute_with_callback() {
    let s = lone_scheduler(0);
    let word = s.process_commands(&[WorkerCommands::Execute, WorkerCommands::CallBack]);
    assert_eq!(word, 0b1001_1000);
}

#[test]
fn packs_single_command_without_multiple_bit() {
    let s = lone_scheduler(0);
    assert_eq!(s.process_commands(&[WorkerCommands::TeamWork]), 0b0010_0000);
    assert_eq!(s.process_commands(&[WorkerCommands::Pass]), 0b0000_0100);
    assert_eq!(s.process_commands(&[WorkerCommands::NotReady]), 0b0100_0000);
    assert_eq!(s.process_commands(&[]), 0);
}

#[test]
fn packs_every_command() {
    let s = lone_scheduler(0);
    let all = [
        WorkerCommands::NotReady,
        WorkerCommands::TeamWork,
        WorkerCommands::Execute,
        WorkerCommands::CallBack,
        WorkerCommands::Pass,
    ];
    assert_eq!(s.process_commands(&all), 0b1111_1100);
    let twice = [WorkerCommands::Execute, WorkerCommands::Execute];
    assert_eq!(s.process_commands(&twice), 0b1001_0000);
}

#[test]
fn check_set_bit_reads_single_bits() {
    assert!(Worker::check_set_bit(0b1001_1000, 7));
    assert!(Worker::check_set_bit(0b1001_1000, 4));
    assert!(Worker::check_set_bit(0b1001_1000, 3));
    assert!(!Worker::check_set_bit(0b1001_1000, 5));
    assert!(!Worker::check_set_bit(0, 0));
    assert!(Worker::check_set_bit(1, 0));
}

#[test]
fn worker_reads_back_packed_commands() {
    let s = lone_scheduler(0);
    let word = s.process_commands(&[WorkerCommands::Execute, WorkerCommands::TeamWork]);
    let action = Worker::read_command(word);
    assert_eq!(action, WorkerAction { execute: true, is_teamwork: true, has_callback: false });
    assert!(action.converts_result());
    let word = s.process_commands(&[WorkerCommands::Execute, WorkerCommands::Pass]);
    let action = Worker::read_command(word);
    assert_eq!(action, WorkerAction { execute: true, is_teamwork: false, has_callback: false });
    assert!(!action.converts_result());
}

#[test]
fn worker_ignores_pass_bit_of_packed_word() {
    // The worker reads "pass" from bit 1, which packing never sets.
    assert_eq!(PASS, 1);
    let s = lone_scheduler(0);
    let word = s.process_commands(&[WorkerCommands::Pass]);
    assert!(!Worker::check_set_bit(word, PASS));
    assert_eq!(Worker::read_command(word), WorkerAction { execute: false, is_teamwork: false, has_callback: false });
}

#[test]
fn command_bits_of_worker() {
    assert_eq!(EXECUTE, 4);
    assert_eq!(TEAM_WORK, 5);
    assert_eq!(CALLBACK, 3);
}

#[test]
fn expectations_pick_commands() {
    assert_eq!(ExpectResult::flag(), WorkerCommands::CallBack);
    assert_eq!(ExpectTeamwork::flag(), WorkerCommands::TeamWork);
    assert_eq!(ExpectNothing::flag(), WorkerCommands::Pass);
}

#[test]
fn meta_region_and_worker_new() {
    let region = WorkerMetaRegion::new(3);
    assert_eq!(region.thread_idx, 0);
    assert_eq!(region.done, 3);
    let w = Worker::new(WorkerMetaRegion { thread_idx: 5, done: 2 });
    assert_eq!(w.meta.thread_idx, 5);
    assert_eq!(w.meta.done, 2);
}

#[test]
fn set_free_clears_only_own_bit() {
    let w = Worker::new(WorkerMetaRegion { thread_idx: 1, done: 0 });
    let mut done: u8 = 0b0000_1011;
    w.set_free(&mut done);
    assert_eq!(done, 0b0000_1001);
    w.set_free(&mut done);
    assert_eq!(done, 0b0000_1001);
}

#[test]
fn busy_then_free_restores_mask() {
    let mask = 0b0101_0011u8;
    let busy = set_bit(mask, 2);
    assert_eq!(busy, 0b0101_0111);
    assert_eq!(clear_bit(busy, 2), mask);
}

#[test]
fn unavailable_masks() {
    assert_eq!(unavailable_mask(4), 0b1111_0000);
    assert_eq!(unavailable_mask(0), 0b1111_1111);
    assert_eq!(unavailable_mask(7), 0b1000_0000);
    assert_eq!(unavailable_mask(1), 0b1111_1110);
}

#[test]
fn i32_from_bytes_reads_first_four() {
    let v = <i32 as FromBytes>::from_bytes(&[0xff, 0xff, 0xff, 0xff, 9]);
    assert_eq!(v, -1);
    let v = <i32 as FromBytes>::from_bytes(&42i32.to_ne_bytes());
    assert_eq!(v, 42);
    let mut bytes = 6767i32.to_ne_bytes().to_vec();
    bytes.extend_from_slice(&[1, 2, 3]);
    assert_eq!(<i32 as FromBytes>::from_bytes(&bytes), 6767);
}
