//! Run a command until it succeeds: the retry and backoff engine.
//!
//! The crate holds the decisions of a supervisor that runs one shell command
//! again and again until it exits with status zero. Launching the command,
//! sleeping and reading the clock are left to the caller; what to do after
//! each attempt, how long to wait, and when to give up is decided here, and
//! every decision is proved against a mathematical model.
//!
//! All durations and clock readings are whole milliseconds.

pub mod backoff;
pub mod decimal;
pub mod outcome;
pub mod run;
pub mod state;
pub mod time;
