//! The order in which `watch` runs its commands after a change: the tool's
//! own commands first, then the shell commands, stopping at the first one
//! that fails.

use vstd::prelude::*;

verus! {

/// What to run next.
#[derive(Debug, Clone, Copy, PartialEq, Eq, Structural)]
pub enum RunStep {
    /// The tool's own command at this index.
    Internal(usize),
    /// The shell command at this index.
    Shell(usize),
    /// Nothing more.
    Done,
}

/// The first shell command, or nothing where there is none.
pub open spec fn shell_from(i: nat, n_shell: nat) -> RunStep {
    if i < n_shell {
        RunStep::Shell(i as usize)
    } else {
        RunStep::Done
    }
}

/// The first step of a round: the first of the tool's own commands unless
/// they are switched off or there are none, else the first shell command.
pub open spec fn first_step_spec(n_internal: nat, no_execute: bool, n_shell: nat) -> RunStep {
    if !no_execute && n_internal > 0 {
        RunStep::Internal(0)
    } else {
        shell_from(0, n_shell)
    }
}

/// The step after `step`, given whether it succeeded: a failure ends the
/// round; a success goes on to the next command of the same kind, and from
/// the last of the tool's own commands to the first shell command.
pub open spec fn next_step_spec(step: RunStep, succeeded: bool, n_internal: nat, n_shell: nat) -> RunStep {
    if !succeeded {
        RunStep::Done
    } else {
        match step {
            RunStep::Internal(i) => if i + 1 < n_internal {
                RunStep::Internal((i + 1) as usize)
            } else {
                shell_from(0, n_shell)
            },
            RunStep::Shell(i) => shell_from((i + 1) as nat, n_shell),
            RunStep::Done => RunStep::Done,
        }
    }
}

/// The first step of a round of commands.
pub fn first_step(n_internal: usize, no_execute: bool, n_shell: usize) -> (r: RunStep)
    ensures
        r == first_step_spec(n_internal as nat, no_execute, n_shell as nat),
{
    if !no_execute && n_internal > 0 {
        RunStep::Internal(0)
    } else if n_shell > 0 {
        RunStep::Shell(0)
    } else {
        RunStep::Done
    }
}

/// The step that follows `step` in a round of commands.
pub fn next_step(step: RunStep, succeeded: bool, n_internal: usize, n_shell: usize) -> (r: RunStep)
    requires
        step matches RunStep::Internal(i) ==> i < n_internal,
        step matches RunStep::Shell(i) ==> i < n_shell,
    ensures
        r == next_step_spec(step, succeeded, n_internal as nat, n_shell as nat),
{
    if !succeeded {
        return RunStep::Done;
    }
    match step {
        RunStep::Internal(i) => {
            if i + 1 < n_internal {
                RunStep::Internal(i + 1)
            } else if n_shell > 0 {
                RunStep::Shell(0)
            } else {
                RunStep::Done
            }
        },
        RunStep::Shell(i) => {
            if i + 1 < n_shell {
                RunStep::Shell(i + 1)
            } else {
                RunStep::Done
            }
        },
        RunStep::Done => RunStep::Done,
    }
}

} // verus!
