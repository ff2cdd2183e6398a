//! Bounded command executor: classification of one external privileged
//! operation raced against a timeout.
//!
//! The spawn/wait/kill machinery itself is unverified I/O and lives outside
//! the library; this module holds the decision logic that turns what the
//! wait reported into a typed outcome.

use vstd::prelude::*;

verus! {

/// Outcome of one bounded external invocation.
///
/// `TimedOut` is kept distinct from `Failure` because callers react
/// differently: a timeout forces a stop of the enclosing guest, while a
/// plain failure is merely logged.
#[derive(Debug, Clone, Copy, PartialEq, Eq, Structural)]
pub enum CommandOutcome {
    Success,
    Failure(i32),
    TimedOut,
}

/// Exit classification of a plain (un-timed) external command.
#[derive(Debug, Clone, Copy, PartialEq, Eq, Structural)]
pub enum ExitStatus {
    Successful,
    Unsuccessful(i32),
}

/// Classifies an exit code: zero is success, anything else is failure.
pub fn classify_exit_code(code: i32) -> (r: ExitStatus)
    ensures
        r == (if code == 0 {
            ExitStatus::Successful
        } else {
            ExitStatus::Unsuccessful(code)
        }),
{
    if code == 0 {
        ExitStatus::Successful
    } else {
        ExitStatus::Unsuccessful(code)
    }
}

/// What a bounded wait on a child process reported: `None` means the
/// timeout elapsed first; `Some(code)` means the child exited, with its
/// exit code, or `Some(None)` when it was terminated by a signal and so
/// reports no code.
pub type WaitReport = Option<Option<i32>>;

/// The outcome of the whole bounded execution, and whether the caller must
/// now forcibly terminate the child. The kill order is given exactly when
/// the timeout elapsed, so a child that never exits is killed exactly once.
///
/// A child that died to a signal reports no exit code; it is classified as
/// a failure with the sentinel code `-1`.
pub fn bounded_outcome(wait: WaitReport) -> (r: (CommandOutcome, bool))
    ensures
        r.0 == spec_bounded_outcome(wait),
        r.1 == (wait is None),
        r.0 is TimedOut <==> wait is None,
{
    match wait {
        None => (CommandOutcome::TimedOut, true),
        Some(Some(code)) => {
            if code == 0 {
                (CommandOutcome::Success, false)
            } else {
                (CommandOutcome::Failure(code), false)
            }
        },
        Some(None) => (CommandOutcome::Failure(-1), false),
    }
}

/// Classification of a bounded wait report.
pub open spec fn spec_bounded_outcome(wait: WaitReport) -> CommandOutcome {
    match wait {
        None => CommandOutcome::TimedOut,
        Some(Some(code)) => if code == 0 {
            CommandOutcome::Success
        } else {
            CommandOutcome::Failure(code)
        },
        Some(None) => CommandOutcome::Failure(-1i32),
    }
}

/// A process that never exits within the budget is classified `TimedOut`
/// and ordered killed, distinguishable from a process that exits nonzero
/// immediately, which is classified `Failure` and not killed.
pub proof fn lemma_timeout_distinct_from_failure(code: i32)
    ensures
        spec_bounded_outcome(None) == CommandOutcome::TimedOut,
        code != 0 ==> spec_bounded_outcome(Some(Some(code))) == CommandOutcome::Failure(code),
        spec_bounded_outcome(Some(Some(code))) != CommandOutcome::TimedOut,
{
}

} // verus!
