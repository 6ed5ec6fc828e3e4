//! A verified engine for running one shell command across many remote hosts.
//!
//! The engine is pure, deterministic logic: connection establishment with
//! ordered credential fallback, bounded-concurrency scheduling with
//! cancellation, per-host timeout enforcement, and race-free aggregation of
//! per-target results into an ordered report. Transport, processes and
//! terminals live outside the library; they feed the engine plain events and
//! receive plain values back.

pub mod data;
pub mod connect;
pub mod executor;
pub mod sched;
pub mod report;
pub mod engine;
pub mod resolve;
