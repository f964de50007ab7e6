//! What the shell decides around a child process: which side of a process
//! duplication it is on, and what a child's wait status means.

use crate::error::{ErrorView, ShellError};
use vstd::prelude::*;

verus! {

/// Whether a wait status stands for a child that ended by itself: the seven
/// low bits, which hold the terminating signal, are all zero.
pub open spec fn exited(status: i32) -> bool {
    (status & 0x7f) == 0
}

/// The exit code held in a wait status: the second lowest byte.
pub open spec fn exit_code(status: i32) -> i32 {
    (status >> 8) & 0xff
}

/// The number of the signal held in a wait status: the seven low bits.
pub open spec fn terminating_signal(status: i32) -> i32 {
    status & 0x7f
}

/// Calls `libc::WIFEXITED`. The contract is not proved: it restates the
/// definition that libc gives for Linux-like targets, `(status & 0x7f) == 0`.
#[verifier::external_body]
fn wait_status_exited(status: i32) -> (r: bool)
    ensures
        r == exited(status),
{
    libc::WIFEXITED(status)
}

/// Calls `libc::WEXITSTATUS`. The contract is not proved: it restates the
/// definition that libc gives for Linux-like targets, `(status >> 8) & 0xff`.
#[verifier::external_body]
fn wait_status_exit_code(status: i32) -> (r: i32)
    ensures
        r == exit_code(status),
{
    libc::WEXITSTATUS(status)
}

/// Calls `libc::WTERMSIG`. The contract is not proved: it restates the
/// definition that libc gives for Linux-like targets, `status & 0x7f`.
#[verifier::external_body]
fn wait_status_signal(status: i32) -> (r: i32)
    ensures
        r == terminating_signal(status),
{
    libc::WTERMSIG(status)
}

/// How a child process ended.
#[derive(Debug, Clone, Copy, PartialEq, Eq)]
pub enum ChildResult {
    /// It ended by itself with exit code 0.
    Success,
    /// It ended by itself with the exit code `code`, which is not 0.
    Failed { code: i32 },
    /// It did not end by itself: the signal `signal` ended it.
    Killed { signal: i32 },
}

/// What a wait status means.
pub open spec fn classification(status: i32) -> ChildResult {
    if exited(status) {
        if exit_code(status) == 0 {
            ChildResult::Success
        } else {
            ChildResult::Failed { code: exit_code(status) }
        }
    } else {
        ChildResult::Killed { signal: terminating_signal(status) }
    }
}

/// Classifies the wait status of a child that has terminated.
pub fn classify_status(status: i32) -> (r: ChildResult)
    ensures
        r == classification(status),
{
    if wait_status_exited(status) {
        let code: i32 = wait_status_exit_code(status);
        if code == 0 {
            ChildResult::Success
        } else {
            ChildResult::Failed { code }
        }
    } else {
        ChildResult::Killed { signal: wait_status_signal(status) }
    }
}

/// What the shell reports of a child that ended in the way `result`: nothing
/// after a success, the exit code after a failure, the signal after a kill.
pub open spec fn report_of(result: ChildResult) -> Option<ErrorView> {
    match result {
        ChildResult::Success => None,
        ChildResult::Failed { code } => Some(ErrorView::CommandFailed { code }),
        ChildResult::Killed { signal } => Some(ErrorView::CommandKilled { signal }),
    }
}

/// Turns the way a child ended into the outcome of the command: `Ok` after
/// a success, which is reported by silence, and otherwise the error to
/// report.
pub fn command_result(result: ChildResult) -> (r: Result<(), ShellError>)
    ensures
        match r {
            Ok(_) => report_of(result) is None,
            Err(error) => report_of(result) == Some(error@),
        },
{
    match result {
        ChildResult::Success => Ok(()),
        ChildResult::Failed { code } => Err(ShellError::CommandFailed { code }),
        ChildResult::Killed { signal } => Err(ShellError::CommandKilled { signal }),
    }
}

/// Turns the value returned by the system call that changes the working
/// directory into the outcome of `cd`: 0 means that the directory was
/// changed, anything else that it was not, which is an error to report.
pub fn directory_change_result(code: i32) -> (r: Result<(), ShellError>)
    ensures
        match r {
            Ok(_) => code == 0,
            Err(error) => code != 0 && error@ == ErrorView::DirectoryChange,
        },
{
    if code == 0 {
        Ok(())
    } else {
        Err(ShellError::DirectoryChange)
    }
}

/// The wait status of a child that ended by itself with exit code `code`.
pub open spec fn status_of_exit(code: i32) -> i32 {
    code << 8
}

/// A child that ends by itself with the exit code `code` is classified as a
/// success when `code` is 0 and as a failure with that very code otherwise.
pub proof fn lemma_exit_is_classified(code: i32)
    requires
        0 <= code <= 255,
    ensures
        classification(status_of_exit(code)) == if code == 0 {
            ChildResult::Success
        } else {
            ChildResult::Failed { code }
        },
{
    assert(((code << 8) & 0x7f) == 0 && ((code << 8) >> 8) & 0xff == code) by (bit_vector)
        requires
            0 <= code <= 255,
    ;
}

/// A child ended by the signal `signal` is classified as killed by that very
/// signal, whether or not it left a core dump (bit 7 of the status).
pub proof fn lemma_signal_is_classified(signal: i32, core_dumped: bool)
    requires
        1 <= signal <= 127,
    ensures
        classification(if core_dumped { signal | 0x80 } else { signal })
            == (ChildResult::Killed { signal }),
{
    assert((signal & 0x7f) == signal && ((signal | 0x80) & 0x7f) == signal) by (bit_vector)
        requires
            1 <= signal <= 127,
    ;
}

/// Every classification carries a number in the range of its kind: an exit
/// code from 1 to 255, or a signal number from 1 to 127.
pub proof fn lemma_classification_ranges(status: i32)
    ensures
        match classification(status) {
            ChildResult::Success => true,
            ChildResult::Failed { code } => 1 <= code <= 255,
            ChildResult::Killed { signal } => 1 <= signal <= 127,
        },
{
    assert(0 <= (status >> 8) & 0xff <= 255) by (bit_vector);
    assert(0 <= (status & 0x7f) <= 127) by (bit_vector);
}

/// Which of the two processes is running after a process duplication.
#[derive(Debug, Clone, Copy, PartialEq, Eq)]
pub enum ForkSide {
    /// The new child.
    Child,
    /// The parent; `child` is the identifier of its new child.
    Parent { child: i32 },
}

/// What the value returned by a process duplication says: -1 that it failed
/// and no child exists, 0 that the caller is the child, anything else the
/// child's identifier, given to the parent.
pub open spec fn fork_outcome_of(pid: i32) -> Result<ForkSide, ErrorView> {
    if pid == -1 {
        Err(ErrorView::Spawn)
    } else if pid == 0 {
        Ok(ForkSide::Child)
    } else {
        Ok(ForkSide::Parent { child: pid })
    }
}

/// Reads the value returned by a process duplication. A failure is an error
/// to report; the command is then given up.
pub fn fork_outcome(pid: i32) -> (r: Result<ForkSide, ShellError>)
    ensures
        match r {
            Ok(side) => fork_outcome_of(pid) == Ok::<ForkSide, ErrorView>(side),
            Err(error) => fork_outcome_of(pid) == Err::<ForkSide, ErrorView>(error@),
        },
{
    if pid == -1 {
        Err(ShellError::Spawn)
    } else if pid == 0 {
        Ok(ForkSide::Child)
    } else {
        Ok(ForkSide::Parent { child: pid })
    }
}

} // verus!
