//! The rules behind a small bundle of command-line helpers: a file organizer,
//! a bulk renamer, a directory size report, a git branch helper, a todo list
//! and an interactive prompt.
//!
//! Every function here works on plain values and says in its contract what it
//! returns. Reading directories, moving files, talking to a repository and
//! printing are left to the caller, which hands in what it read and carries
//! out what comes back.

pub mod bulk_rename;
pub mod config;
pub mod dir_size;
pub mod git_helper;
pub mod indexed;
pub mod organize;
pub mod shell;
pub mod text;
pub mod todo;
