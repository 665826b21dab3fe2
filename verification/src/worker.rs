//! The worker side: what a worker reads from a command word, and how it
//! gives its slot back when a job is done.

use vstd::prelude::*;
use crate::bits::{bit_set, clear_bit};
use crate::commands::{WorkerCommands, command_bit, packs};

verus! {

/// Bit of a command word that says several commands are packed.
pub const MULTIPLE_COMMANDS: u8 = 7;

/// Bit of a command word that the worker reads as "not ready".
pub const NOT_READY: u8 = 6;

/// Bit of a command word that the worker reads as "team work".
pub const TEAM_WORK: u8 = 5;

/// Bit of a command word that the worker reads as "execute".
pub const EXECUTE: u8 = 4;

/// Bit of a command word that the worker reads as "call back".
pub const CALLBACK: u8 = 3;

/// Bit of a command word that the worker reads as "pass".
pub const PASS: u8 = 1;

/// Where a worker reports that it is free again.
#[derive(Debug, Clone, Copy, PartialEq, Eq, Structural)]
pub struct WorkerMetaRegion {
    /// The worker's slot in its scheduler's busy mask.
    pub thread_idx: u8,
    /// The scheduler whose busy mask the worker clears its slot in.
    pub done: usize,
}

impl WorkerMetaRegion {
    /// A region reporting to scheduler `done`, at slot 0.
    pub fn new(done: usize) -> (r: WorkerMetaRegion)
        ensures
            r.thread_idx == 0,
            r.done == done,
    {
        WorkerMetaRegion { thread_idx: 0, done }
    }
}

/// One worker of a scheduler.
#[derive(Debug, Clone, Copy, PartialEq, Eq, Structural)]
pub struct Worker {
    pub meta: WorkerMetaRegion,
}

/// What a worker does with one received command word.
#[derive(Debug, Clone, Copy, PartialEq, Eq, Structural)]
pub struct WorkerAction {
    /// Run the job.
    pub execute: bool,
    /// The job is team work.
    pub is_teamwork: bool,
    /// The job's result is handed back.
    pub has_callback: bool,
}

/// The action a worker takes on command word `word`.
pub open spec fn action_of(word: u8) -> WorkerAction {
    WorkerAction {
        execute: bit_set(word, EXECUTE),
        is_teamwork: bit_set(word, TEAM_WORK),
        has_callback: bit_set(word, CALLBACK),
    }
}

/// `cmds` holds command `c`.
pub open spec fn has_command(cmds: Seq<WorkerCommands>, c: WorkerCommands) -> bool {
    exists|i: int| 0 <= i < cmds.len() && cmds[i] == c
}

impl WorkerAction {
    /// The job's returned bytes are read and converted into the data type.
    pub fn converts_result(&self) -> (r: bool)
        ensures
            r == (self.is_teamwork || self.has_callback),
    {
        self.is_teamwork || self.has_callback
    }
}

impl Worker {
    pub fn new(meta: WorkerMetaRegion) -> (w: Worker)
        ensures
            w.meta == meta,
    {
        Worker { meta }
    }

    /// Whether bit `bit` of `input` is set.
    pub fn check_set_bit(input: u8, bit: u8) -> (r: bool)
        requires
            bit < 8,
        ensures
            r == bit_set(input, bit),
    {
        assert((input & (1u8 << bit) != 0u8) == bit_set(input, bit)) by (bit_vector)
            requires
                bit < 8,
        ;
        input & (1u8 << bit) != 0
    }

    /// Reads a received command word into the action the worker takes.
    pub fn read_command(packed_command: u8) -> (r: WorkerAction)
        ensures
            r == action_of(packed_command),
    {
        let mut is_teamwork = false;
        let mut has_callback = false;
        if Self::check_set_bit(packed_command, TEAM_WORK) {
            is_teamwork = true;
        }
        if Self::check_set_bit(packed_command, CALLBACK) {
            has_callback = true;
        }
        let execute = Self::check_set_bit(packed_command, EXECUTE);
        WorkerAction { execute, is_teamwork, has_callback }
    }

    /// Gives this worker's slot back: clears its bit in the busy mask `done`
    /// of its scheduler.
    pub fn set_free(&self, done: &mut u8)
        requires
            self.meta.thread_idx < 8,
        ensures
            *final(done) == *old(done) & !(1u8 << self.meta.thread_idx),
            forall|b: u8|
                b < 8 ==> bit_set(*final(done), b) == (bit_set(*old(done), b) && b
                    != self.meta.thread_idx),
    {
        *done = clear_bit(*done, self.meta.thread_idx);
    }
}

/// A word packed from a list of commands is read back by a worker as
/// exactly the commands in the list: it executes when the list holds
/// `Execute`, treats the job as team work when it holds `TeamWork`, and
/// hands the result back when it holds `CallBack`.
pub proof fn lemma_command_word_read_back(word: u8, cmds: Seq<WorkerCommands>)
    requires
        packs(word, cmds),
    ensures
        action_of(word).execute == has_command(cmds, WorkerCommands::Execute),
        action_of(word).is_teamwork == has_command(cmds, WorkerCommands::TeamWork),
        action_of(word).has_callback == has_command(cmds, WorkerCommands::CallBack),
{
    assert(bit_set(word, EXECUTE) == has_command(cmds, WorkerCommands::Execute)) by {
        if has_command(cmds, WorkerCommands::Execute) {
            let i = choose|i: int| 0 <= i < cmds.len() && cmds[i] == WorkerCommands::Execute;
            assert(command_bit(cmds[i]) == EXECUTE);
        }
    }
    assert(bit_set(word, TEAM_WORK) == has_command(cmds, WorkerCommands::TeamWork)) by {
        if has_command(cmds, WorkerCommands::TeamWork) {
            let i = choose|i: int| 0 <= i < cmds.len() && cmds[i] == WorkerCommands::TeamWork;
            assert(command_bit(cmds[i]) == TEAM_WORK);
        }
    }
    assert(bit_set(word, CALLBACK) == has_command(cmds, WorkerCommands::CallBack)) by {
        if has_command(cmds, WorkerCommands::CallBack) {
            let i = choose|i: int| 0 <= i < cmds.len() && cmds[i] == WorkerCommands::CallBack;
            assert(command_bit(cmds[i]) == CALLBACK);
        }
    }
}

} // verus!
