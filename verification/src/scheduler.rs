//! One scheduler: its workers, its busy mask, and what it does with a job
//! offered to it.

use vstd::prelude::*;
use bytes::BytesMut;
use crate::bits::{all_set, bit_set, first_zero_bit, is_first_zero, set_bit};
use crate::commands::{WorkerCommands, command_bit, mentions_bit, packs, MULTIPLE_COMMANDS_BIT};
use crate::worker::{Worker, WorkerMetaRegion};

verus! {

/// The workers that one scheduler can run: one per bit of its busy mask.
pub const THREADS_PER_SCHEDULER: usize = 8;

#[verifier::external_type_specification]
#[verifier::external_body]
pub struct ExBytesMut(BytesMut);

/// The bytes held by a `bytes::BytesMut` buffer.
pub uninterp spec fn team_buffer_bytes(b: BytesMut) -> Seq<u8>;

/// A fresh team-work buffer.
///
/// Calls `bytes::BytesMut::new`, which its documentation shows to make an
/// empty buffer (`len() == 0`); that is all that is claimed of it.
#[verifier::external_body]
fn new_team_buffer() -> (b: BytesMut)
    ensures
        team_buffer_bytes(b) == Seq::<u8>::empty(),
{
    BytesMut::new()
}

/// One scheduler: a group of up to eight workers and their busy mask.
pub struct Scheduler {
    /// The scheduler's place in the token ring.
    pub idx: usize,
    /// Bit `i` is set while worker `i` is busy (or not available at all).
    pub completion: u8,
    /// Buffer owned by the scheduler for work shared between its workers.
    pub team_work_buffer: BytesMut,
    /// The workers made for this scheduler, in slot order.
    pub raw_workers: Vec<Worker>,
}

/// What one scheduler did with a job that was offered to it.
#[derive(Debug, Clone, Copy, PartialEq, Eq, Structural)]
pub enum ProcessOutcome {
    /// The scheduler does not hold the token and left the job alone.
    NotMyTurn,
    /// The job goes to worker `thread` with the command word `packed_command`.
    Dispatched { thread: usize, packed_command: u8 },
    /// Every worker was busy: the job is dropped and the token goes to
    /// scheduler `to`.
    Passed { to: usize },
}

/// The scheduler that took a job, and what it did with it.
#[derive(Debug, Clone, Copy, PartialEq, Eq, Structural)]
pub struct Dispatch {
    pub scheduler: usize,
    pub outcome: ProcessOutcome,
}

/// The command list sent with a job of kind `c`.
pub open spec fn dispatch_commands(c: WorkerCommands) -> Seq<WorkerCommands> {
    seq![WorkerCommands::Execute, c]
}

impl Scheduler {
    /// A new scheduler at the end of the token ring `process_next`, which
    /// gets a slot for it that does not hold the token.
    pub(crate) fn new_inner(process_next: &mut Vec<bool>) -> (s: Scheduler)
        ensures
            s.idx == old(process_next).len(),
            s.completion == 0,
            s.raw_workers@ == Seq::<Worker>::empty(),
            team_buffer_bytes(s.team_work_buffer) == Seq::<u8>::empty(),
            final(process_next)@ == old(process_next)@.push(false),
    {
        let idx = process_next.len();
        process_next.push(false);
        Scheduler {
            raw_workers: Vec::new(),
            idx,
            completion: 0,
            team_work_buffer: new_team_buffer(),
        }
    }

    /// The worker for slot `idx` of this scheduler, reporting to the busy
    /// mask `done` (the scheduler's place in its pool).
    pub(crate) fn init_child(&self, idx: usize, done: usize) -> (w: Worker)
        requires
            idx < THREADS_PER_SCHEDULER,
        ensures
            w.meta.thread_idx == idx,
            w.meta.done == done,
    {
        let mut region = WorkerMetaRegion::new(done);
        region.thread_idx = idx as u8;
        Worker::new(region)
    }

    /// Packs a list of commands into one command word.
    pub fn process_commands(&self, commands: &[WorkerCommands]) -> (packed: u8)
        ensures
            packs(packed, commands@),
    {
        let mut packed_commands: u8 = 0;
        if commands.len() > 1 {
            packed_commands = set_bit(packed_commands, MULTIPLE_COMMANDS_BIT);
        }
        proof {
            assert forall|b: u8| b < 8 implies bit_set(packed_commands, b) == (b
                == MULTIPLE_COMMANDS_BIT && commands@.len() > 1) by {
                assert(!bit_set(0u8, b)) by (bit_vector);
            }
        }
        let mut i: usize = 0;
        while i < commands.len()
            invariant
                i <= commands@.len(),
                forall|b: u8|
                    #![trigger bit_set(packed_commands, b)]
                    b < 8 ==> bit_set(packed_commands, b) == ((b == MULTIPLE_COMMANDS_BIT
                        && commands@.len() > 1) || mentions_bit(commands@.take(i as int), b)),
            decreases commands@.len() - i,
        {
            let bit: u8 = match commands[i] {
                WorkerCommands::NotReady => 6,
                WorkerCommands::TeamWork => 5,
                WorkerCommands::Execute => 4,
                WorkerCommands::CallBack => 3,
                WorkerCommands::Pass => 2,
            };
            packed_commands = set_bit(packed_commands, bit);
            proof {
                let done = commands@.take(i as int);
                let next = commands@.take(i + 1);
                assert forall|b: u8| b < 8 implies mentions_bit(next, b) == (mentions_bit(done, b)
                    || b == bit) by {
                    if mentions_bit(done, b) {
                        let k = choose|k: int| 0 <= k < done.len() && command_bit(done[k]) == b;
                        assert(next[k] == done[k]);
                    }
                    if b == bit {
                        assert(command_bit(next[i as int]) == b);
                    }
                    if mentions_bit(next, b) {
                        let k = choose|k: int| 0 <= k < next.len() && command_bit(next[k]) == b;
                        if k < i {
                            assert(done[k] == next[k]);
                        }
                    }
                }
            }
            i = i + 1;
        }
        proof {
            assert(commands@.take(commands@.len() as int) =~= commands@);
        }
        packed_commands
    }

    /// Offers a job of kind `command` to this scheduler, whose slot in the
    /// token ring is `process_next[self.idx]`.
    ///
    /// Without the token nothing happens.  With it, the job goes to the
    /// lowest free worker, which is marked busy; when every worker is busy
    /// the job is dropped and the token moves on to the next scheduler of
    /// the ring.
    pub fn process(&mut self, process_next: &mut Vec<bool>, command: WorkerCommands) -> (r:
        ProcessOutcome)
        requires
            old(self).idx < old(process_next).len(),
        ensures
            final(self).idx == old(self).idx,
            final(self).raw_workers == old(self).raw_workers,
            final(self).team_work_buffer == old(self).team_work_buffer,
            match r {
                ProcessOutcome::NotMyTurn => {
                    &&& !old(process_next)@[old(self).idx as int]
                    &&& final(self).completion == old(self).completion
                    &&& final(process_next)@ == old(process_next)@
                },
                ProcessOutcome::Dispatched { thread, packed_command } => {
                    &&& old(process_next)@[old(self).idx as int]
                    &&& thread < 8
                    &&& is_first_zero(old(self).completion, thread as u8)
                    &&& final(self).completion == old(self).completion | (1u8 << (thread as u8))
                    &&& packs(packed_command, dispatch_commands(command))
                    &&& final(process_next)@ == old(process_next)@
                },
                ProcessOutcome::Passed { to } => {
                    &&& old(process_next)@[old(self).idx as int]
                    &&& all_set(old(self).completion)
                    &&& to == (old(self).idx + 1) % (old(process_next).len() as int)
                    &&& final(self).completion == old(self).completion
                    &&& final(process_next)@ == old(process_next)@.update(
                        old(self).idx as int,
                        false,
                    ).update(to as int, true)
                },
            },
    {
        let my_turn = process_next[self.idx];
        if !my_turn {
            return ProcessOutcome::NotMyTurn;
        }
        let next_available_thread = first_zero_bit(self.completion);
        match next_available_thread {
            Some(idx) => {
                let current = self.completion;
                self.completion = set_bit(current, idx as u8);
                let commands = [WorkerCommands::Execute, command];
                let packed_command = self.process_commands(&commands);
                proof {
                    assert(commands@ =~= dispatch_commands(command));
                }
                ProcessOutcome::Dispatched { thread: idx, packed_command }
            },
            None => {
                let wrapping_index = (self.idx + 1) % process_next.len();
                process_next.set(self.idx, false);
                process_next.set(wrapping_index, true);
                ProcessOutcome::Passed { to: wrapping_index }
            },
        }
    }
}

} // verus!
