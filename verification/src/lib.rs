//! A microbenchmark harness that measures insertion throughput of a
//! thread-safe associative container under two key-hashing strategies and
//! two execution strategies (single-threaded and fixed-fan-out concurrent).
//!
//! The verified core covers workload generation, work partitioning across
//! workers, trial timing, statistical aggregation, and report formatting.
//! The concurrent container and the hash functions themselves are external
//! collaborators reached through a small set of trusted wrappers.

pub mod config;
pub mod container;
pub mod partition;
pub mod report;
pub mod sampler;
pub mod stats;
pub mod strategy;
pub mod timer;
pub mod workload;
