//! Support library for a single-feature linear-regression micro-benchmark.
//!
//! The numeric gradient-descent loop itself works on floating-point values
//! and lives with the binary; this crate holds the parts whose behaviour can
//! be pinned down exactly: the schedule that decides at which epochs a
//! progress line is due, and the parser that reads the resident-set size
//! out of the process-status text.

pub mod rss;
pub mod schedule;
