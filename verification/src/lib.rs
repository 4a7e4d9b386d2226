//! Core of a small HTTP load-generation engine: weighted endpoint
//! selection, worker-pool state transitions, latency aggregation into
//! percentile statistics, and comparison of a run against a baseline.
//!
//! All durations are carried as whole microseconds. Everything that
//! touches the network, the clock, the file system or the terminal
//! lives outside this crate; the functions here take and return plain
//! values and are verified against their contracts.

pub mod config;
pub mod error;
pub mod reporter;
pub mod runner;
pub mod stats;
