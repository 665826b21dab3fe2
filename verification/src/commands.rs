//! The commands a scheduler sends to a worker, and the job kinds that pick
//! the second command of a dispatch.

use vstd::prelude::*;

verus! {

/// What a worker is asked to do with a job.
#[derive(Debug, Clone, Copy, PartialEq, Eq, Structural)]
pub enum WorkerCommands {
    NotReady,
    TeamWork,
    Execute,
    CallBack,
    Pass,
}

/// The bit of a packed command word that says several commands are packed.
pub const MULTIPLE_COMMANDS_BIT: u8 = 7;

/// The bit of a packed command word that carries command `c`.
pub open spec fn command_bit(c: WorkerCommands) -> u8 {
    match c {
        WorkerCommands::NotReady => 6,
        WorkerCommands::TeamWork => 5,
        WorkerCommands::Execute => 4,
        WorkerCommands::CallBack => 3,
        WorkerCommands::Pass => 2,
    }
}

/// Some command of `cmds` is carried by bit `b`.
pub open spec fn mentions_bit(cmds: Seq<WorkerCommands>, b: u8) -> bool {
    exists|i: int| 0 <= i < cmds.len() && #[trigger] command_bit(cmds[i]) == b
}

/// `word` is the packed form of `cmds`: bit 7 is set exactly when more than
/// one command is given, and each other bit exactly when a given command is
/// carried by it.
pub open spec fn packs(word: u8, cmds: Seq<WorkerCommands>) -> bool {
    forall|b: u8|
        #![trigger crate::bits::bit_set(word, b)]
        b < 8 ==> (crate::bits::bit_set(word, b) == ((b == MULTIPLE_COMMANDS_BIT && cmds.len() > 1)
            || mentions_bit(cmds, b)))
}

/// A command list has one packed form.
pub proof fn lemma_packed_word_unique(w1: u8, w2: u8, cmds: Seq<WorkerCommands>)
    requires
        packs(w1, cmds),
        packs(w2, cmds),
    ensures
        w1 == w2,
{
    assert forall|b: u8| b < 8 implies crate::bits::bit_set(w1, b) == crate::bits::bit_set(w2, b) by {}
    crate::bits::lemma_bits_determine(w1, w2);
}

/// Bit 7 of a packed word is set exactly when more than one command is
/// packed.
pub proof fn lemma_multiple_bit_exactly_when_several(word: u8, cmds: Seq<WorkerCommands>)
    requires
        packs(word, cmds),
    ensures
        crate::bits::bit_set(word, 7) <==> cmds.len() > 1,
{
    assert(crate::bits::bit_set(word, 7) == ((7u8 == MULTIPLE_COMMANDS_BIT && cmds.len() > 1)
        || mentions_bit(cmds, 7)));
    if mentions_bit(cmds, 7) {
        let i = choose|i: int| 0 <= i < cmds.len() && #[trigger] command_bit(cmds[i]) == 7u8;
        assert(command_bit(cmds[i]) != 7);
    }
}

/// A single command packs to its own bit alone: `NotReady` to 64,
/// `TeamWork` to 32, `Execute` to 16, `CallBack` to 8 and `Pass` to 4.
pub proof fn lemma_single_command_word(word: u8, c: WorkerCommands)
    requires
        packs(word, seq![c]),
    ensures
        word == match c {
            WorkerCommands::NotReady => 64u8,
            WorkerCommands::TeamWork => 32u8,
            WorkerCommands::Execute => 16u8,
            WorkerCommands::CallBack => 8u8,
            WorkerCommands::Pass => 4u8,
        },
{
    let k = command_bit(c);
    let cmds = seq![c];
    assert forall|b: u8| b < 8 implies crate::bits::bit_set(word, b) == crate::bits::bit_set(
        1u8 << k,
        b,
    ) by {
        assert(crate::bits::bit_set(1u8 << k, b) == (b == k)) by (bit_vector)
            requires
                k < 8,
                b < 8,
        ;
        if mentions_bit(cmds, b) {
            let i = choose|i: int| 0 <= i < cmds.len() && #[trigger] command_bit(cmds[i]) == b;
            assert(i == 0);
        }
        if b == k {
            assert(command_bit(cmds[0]) == b);
        }
    }
    crate::bits::lemma_bits_determine(word, 1u8 << k);
    assert(1u8 << 6u8 == 64u8) by (bit_vector);
    assert(1u8 << 5u8 == 32u8) by (bit_vector);
    assert(1u8 << 4u8 == 16u8) by (bit_vector);
    assert(1u8 << 3u8 == 8u8) by (bit_vector);
    assert(1u8 << 2u8 == 4u8) by (bit_vector);
}

/// A kind of job result that a caller expects, which decides the command
/// sent with the job.
pub trait WorkerResults {
    /// The command this kind of job is sent with.
    spec fn command() -> WorkerCommands;

    fn flag() -> (c: WorkerCommands)
        ensures
            c == Self::command(),
    ;
}

/// The caller wants the job's result handed back.
pub struct ExpectResult;

impl WorkerResults for ExpectResult {
    open spec fn command() -> WorkerCommands {
        WorkerCommands::CallBack
    }

    fn flag() -> (c: WorkerCommands) {
        WorkerCommands::CallBack
    }
}

/// The job is shared work between the workers of a scheduler.
pub struct ExpectTeamwork;

impl WorkerResults for ExpectTeamwork {
    open spec fn command() -> WorkerCommands {
        WorkerCommands::TeamWork
    }

    fn flag() -> (c: WorkerCommands) {
        WorkerCommands::TeamWork
    }
}

/// The caller expects nothing back.
pub struct ExpectNothing;

impl WorkerResults for ExpectNothing {
    open spec fn command() -> WorkerCommands {
        WorkerCommands::Pass
    }

    fn flag() -> (c: WorkerCommands) {
        WorkerCommands::Pass
    }
}

} // verus!
