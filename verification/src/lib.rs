//! Core logic of a command-line HTTP load generator: resolving a run
//! configuration from arguments, dividing the total call count across
//! workers, deriving the HTTP client settings, and aggregating recorded
//! per-call latencies.

pub mod assign;
pub mod config;
pub mod numbers;
pub mod plan;
pub mod latency;
