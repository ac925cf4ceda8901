//! Folding of `perf script` traces into one line per distinct call stack.
//!
//! The configuration is built from command-line flags in [`options`], the
//! event that a run counts is resolved from the trace in [`trace`] with the
//! header grammar of [`header`], and [`fold`] hands the trace to inferno's
//! perf folder and states what comes back.
pub mod options;
pub mod header;
pub mod trace;
pub mod fold;
