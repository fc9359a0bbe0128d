//! Verified core of a concurrent media downloader.
//!
//! The library models the decisions of a download run — argument
//! validation, existing-file detection by content hash, transfer
//! accounting, bounded-concurrency scheduling and progress
//! aggregation — as verified functions over plain values.  The
//! surrounding process (HTTP, disk, timers) drives these functions
//! and performs the I/O they decide on.

pub mod api;
pub mod cli;
pub mod config;
pub mod counter;
pub mod download;
pub mod hash;
pub mod scheduler;
pub mod tool;
