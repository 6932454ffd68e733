//! Runs a shell command in every git repository found under a directory.
//!
//! The library decides what is discovered, what is run and how the results
//! combine into one exit code; spawning processes and printing are left to
//! the caller.

pub mod command;
pub mod walk;
pub mod detect;
pub mod error;
pub mod dispatch;
pub mod options;
mod outside;
