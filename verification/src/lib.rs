//! In-path packet telemetry core: per-key packet/byte counters updated on
//! every observed packet, and a rate engine that derives live throughput
//! statistics from periodic snapshots of those counters.

pub mod counter;
pub mod options;
pub mod poll;
pub mod probe;
pub mod rate;
pub mod snapshot;
