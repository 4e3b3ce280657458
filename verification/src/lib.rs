//! A process-supervisor library: a declared set of programs, each run as a
//! group of replica child processes, is driven through a lifecycle state
//! machine by periodic checks, and reconciled against freshly loaded
//! configurations at runtime.

pub mod actions;
pub mod childprocess;
pub mod error;
pub mod logging;
pub mod program;
pub mod programs;
pub mod strutil;
mod sys;

