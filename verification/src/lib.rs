//! The core of a small interactive command shell.
//!
//! A line typed by the user is trimmed, has its `$(name)` references replaced
//! from the session's variable store, is split into an argument vector and is
//! then either carried out as a builtin or handed back to the caller as an
//! external command to launch. Every decision of that cycle is made here and
//! is stated over mathematical models of the data; reading input, touching
//! the file system and creating processes are left to the program around it.

pub mod text;
pub mod process;
pub mod tokenizer;
pub mod variables;
pub mod expand;
pub mod error;
pub mod builtins;
pub mod resolve;
pub mod shell;
