//! What can go wrong while a line is carried out, and the words that report it.

use crate::text::{decimal, push_decimal};
use vstd::prelude::*;

verus! {

/// An error of one command line. None of them ends the session: the shell
/// reports it and reads the next line.
#[derive(Debug, Clone, PartialEq, Eq)]
pub enum ShellError {
    /// A reference names a variable that is not set.
    UnknownVariable { name: String },
    /// `set` was not given exactly a name and a value.
    InvalidSet,
    /// `cd` was given more than one argument.
    InvalidCd,
    /// The working directory could not be changed.
    DirectoryChange,
    /// No child process could be created.
    Spawn,
    /// The child could not start `command`; `reason` is the operating
    /// system's description of the failure.
    Exec { command: String, reason: String },
    /// The command ended by itself with the exit code `code`, which is not 0.
    CommandFailed { code: i32 },
    /// The command was ended by the signal `signal`.
    CommandKilled { signal: i32 },
}

/// The mathematical model of a `ShellError`.
pub ghost enum ErrorView {
    UnknownVariable { name: Seq<char> },
    InvalidSet,
    InvalidCd,
    DirectoryChange,
    Spawn,
    Exec { command: Seq<char>, reason: Seq<char> },
    CommandFailed { code: i32 },
    CommandKilled { signal: i32 },
}

impl View for ShellError {
    type V = ErrorView;

    open spec fn view(&self) -> ErrorView {
        match self {
            ShellError::UnknownVariable { name } => ErrorView::UnknownVariable { name: name@ },
            ShellError::InvalidSet => ErrorView::InvalidSet,
            ShellError::InvalidCd => ErrorView::InvalidCd,
            ShellError::DirectoryChange => ErrorView::DirectoryChange,
            ShellError::Spawn => ErrorView::Spawn,
            ShellError::Exec { command, reason } => ErrorView::Exec {
                command: command@,
                reason: reason@,
            },
            ShellError::CommandFailed { code } => ErrorView::CommandFailed { code: *code },
            ShellError::CommandKilled { signal } => ErrorView::CommandKilled { signal: *signal },
        }
    }
}

impl DeepView for ShellError {
    type V = ErrorView;

    open spec fn deep_view(&self) -> ErrorView {
        self@
    }
}

/// The words that report `error`.
pub open spec fn message_of(error: ErrorView) -> Seq<char> {
    match error {
        ErrorView::UnknownVariable { name } => "Variable '"@ + name + "' not found"@,
        ErrorView::InvalidSet => "Invalid set command"@,
        ErrorView::InvalidCd => "Invalid cd command"@,
        ErrorView::DirectoryChange => "Failed to change directory"@,
        ErrorView::Spawn => "Fork failed"@,
        ErrorView::Exec { command, reason } => command + ": "@ + reason,
        ErrorView::CommandFailed { code } => "Command execution failed (exit status "@ + decimal(
            code as int,
        ) + ")"@,
        ErrorView::CommandKilled { signal } => "Command execution failed (signal "@ + decimal(
            signal as int,
        ) + ")"@,
    }
}

impl ShellError {
    /// The words that report this error.
    pub fn message(&self) -> (text: String)
        ensures
            text@ == message_of(self@),
    {
        match self {
            ShellError::UnknownVariable { name } => {
                let mut text = "Variable '".to_owned();
                text.append(name.as_str());
                text.append("' not found");
                text
            },
            ShellError::InvalidSet => "Invalid set command".to_owned(),
            ShellError::InvalidCd => "Invalid cd command".to_owned(),
            ShellError::DirectoryChange => "Failed to change directory".to_owned(),
            ShellError::Spawn => "Fork failed".to_owned(),
            ShellError::Exec { command, reason } => {
                let mut text = command.clone();
                text.append(": ");
                text.append(reason.as_str());
                text
            },
            ShellError::CommandFailed { code } => {
                let mut text = "Command execution failed (exit status ".to_owned();
                push_decimal(&mut text, *code);
                text.append(")");
                text
            },
            ShellError::CommandKilled { signal } => {
                let mut text = "Command execution failed (signal ".to_owned();
                push_decimal(&mut text, *signal);
                text.append(")");
                text
            },
        }
    }
}

} // verus!
