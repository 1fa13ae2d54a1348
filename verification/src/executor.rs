//! Gated execution of a resolved chain.
//!
//! Commands run in order; after each one the chain proceeds only if the
//! command's gating rule allows it for the observed outcome, and a spawn
//! failure terminates the chain whatever the rule. Spawning itself lives
//! outside the library: callers observe each command's [`CommandOutcome`]
//! and the library decides how far the chain goes.

use crate::command::CommandModel;
use crate::command::ProceedIf;
use crate::config::RebuildConfig;
use vstd::prelude::*;

verus! {

/// What running one atomic command was observed to do.
#[derive(Debug, Clone, Copy, PartialEq, Eq, Structural)]
pub enum CommandOutcome {
    /// The named executable could not be launched.
    SpawnFailed,
    /// The process ran to completion; the field records whether its exit
    /// status indicated success.
    Exited(bool),
}

/// Whether the chain proceeds past a command, given the command's gating
/// rule and the observed outcome: a spawn failure always terminates the
/// chain; otherwise the rule decides on the exit status.
pub open spec fn proceeds(rule: ProceedIf, outcome: CommandOutcome) -> bool {
    match outcome {
        CommandOutcome::SpawnFailed => false,
        CommandOutcome::Exited(success) => match rule {
            ProceedIf::Any => true,
            ProceedIf::Success => success,
            ProceedIf::Failure => !success,
        },
    }
}

/// Decides whether the chain proceeds past a command: `;` proceeds on any
/// exit status, `&&` only on success, `||` only on failure, and a spawn
/// failure never proceeds.
pub fn continue_after(rule: ProceedIf, outcome: CommandOutcome) -> (r: bool)
    ensures
        r == proceeds(rule, outcome),
{
    match outcome {
        CommandOutcome::SpawnFailed => false,
        CommandOutcome::Exited(success) => match rule {
            ProceedIf::Any => true,
            ProceedIf::Success => success,
            ProceedIf::Failure => !success,
        },
    }
}

/// How many commands of a chain run, given the outcome each command has if
/// it is reached: the chain runs command after command and stops after the
/// first one that refuses to proceed.
pub open spec fn run_length(cmds: Seq<CommandModel>, outcomes: Seq<CommandOutcome>) -> nat
    decreases cmds.len(),
{
    if cmds.len() == 0 {
        0
    } else if proceeds(cmds[0].rule, outcomes[0]) {
        1 + run_length(cmds.skip(1), outcomes.skip(1))
    } else {
        1
    }
}

/// A two-command chain reaches its second command exactly when the first
/// command's gating rule allows the first outcome: always under `;`, only
/// on success under `&&`, only on failure under `||`, and never after a
/// spawn failure.
pub proof fn lemma_second_command_gating(cmds: Seq<CommandModel>, outcomes: Seq<CommandOutcome>)
    requires
        cmds.len() == 2,
        outcomes.len() == 2,
    ensures
        run_length(cmds, outcomes) == (if proceeds(cmds[0].rule, outcomes[0]) {
            2nat
        } else {
            1nat
        }),
{
    if proceeds(cmds[0].rule, outcomes[0]) {
        assert(cmds.skip(1).len() == 1);
        assert(cmds.skip(1).skip(1) =~= Seq::<CommandModel>::empty());
        assert(run_length(cmds.skip(1).skip(1), outcomes.skip(1).skip(1)) == 0);
        assert(run_length(cmds.skip(1), outcomes.skip(1)) == 1);
    }
}

/// Runs a resolved chain, given the outcome each of its commands has if it
/// is reached: commands are taken in order, and the chain stops after the
/// first command whose gating rule, or spawn failure, refuses to proceed.
/// Returns how many commands ran.
pub fn rebuild_sync(config: &RebuildConfig, outcomes: &Vec<CommandOutcome>) -> (n: usize)
    requires
        outcomes@.len() == config@.commands.len(),
    ensures
        n == run_length(config@.commands, outcomes@),
        n <= config@.commands.len(),
{
    let ghost cmds = config@.commands;
    let mut i: usize = 0;
    proof {
        assert(cmds.skip(0) =~= cmds);
        assert(outcomes@.skip(0) =~= outcomes@);
    }
    while i < config.commands.len()
        invariant
            i <= cmds.len(),
            cmds == config@.commands,
            outcomes@.len() == cmds.len(),
            run_length(cmds, outcomes@) == i + run_length(
                cmds.skip(i as int),
                outcomes@.skip(i as int),
            ),
        decreases cmds.len() - i,
    {
        let outcome = outcomes[i];
        let go_on = continue_after(config.commands[i].proceed_if, outcome);
        proof {
            assert(cmds.skip(i as int)[0] == cmds[i as int]);
            assert(outcomes@.skip(i as int)[0] == outcomes@[i as int]);
            assert(cmds.skip(i as int).skip(1) =~= cmds.skip(i as int + 1));
            assert(outcomes@.skip(i as int).skip(1) =~= outcomes@.skip(i as int + 1));
        }
        i += 1;
        if !go_on {
            return i;
        }
    }
    proof {
        assert(cmds.skip(i as int) =~= Seq::<CommandModel>::empty());
    }
    i
}

} // verus!
