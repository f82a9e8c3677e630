//! Verified core of a CPU load generator: command-line configuration,
//! the busy-loop worker's bookkeeping, and the statistics report.

pub mod decimal;
pub mod config;
pub mod worker;
pub mod report;
