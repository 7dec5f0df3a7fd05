//! The run configuration: one immutable value object created at startup and
//! shared read-only by every trial of a run.

use vstd::prelude::*;

verus! {

/// Number of nanoseconds in one second.
pub const NANOS_PER_SEC: u64 = 1_000_000_000;

/// Elements inserted per trial.
pub const DEFAULT_ELEMENT_COUNT: u64 = 100_000;

/// Workers used by the fan-out strategy.
pub const DEFAULT_THREAD_COUNT: usize = 4;

/// Measurement-time budget per configuration, in seconds.
pub const DEFAULT_MEASUREMENT_SECS: u64 = 10;

/// Target number of samples per configuration.
pub const DEFAULT_SAMPLE_SIZE: usize = 50;

/// Multiple of the standard deviation beyond which a trial is flagged as a
/// statistical outlier.
pub const DEFAULT_OUTLIER_MULTIPLE: u64 = 2;

/// The benchmark configuration: how much work each trial performs and when
/// sampling stops.
#[derive(Clone, Copy, PartialEq, Eq, Structural, Debug)]
pub struct BenchmarkConfig {
    /// Number of key-value pairs each trial inserts.
    pub element_count: u64,
    /// Number of worker threads used by the fan-out strategy.
    pub thread_count: usize,
    /// Measurement-time budget per configuration, in nanoseconds.
    pub measurement_time_nanos: u64,
    /// Target number of samples per configuration.
    pub sample_size: usize,
    /// Multiple of the standard deviation beyond which a trial's duration is
    /// flagged as an outlier.
    pub outlier_multiple: u64,
}

impl BenchmarkConfig {
    /// A usable configuration: there is work to do, at least one worker, and
    /// sampling can make progress towards both stopping bounds.
    pub open spec fn wf(self) -> bool {
        &&& self.element_count > 0
        &&& self.thread_count >= 1
        &&& self.measurement_time_nanos > 0
        &&& self.sample_size >= 1
    }

    /// The fixed constants compiled into a run: 100,000 elements, 4 worker
    /// threads, a 10 second measurement budget and 50 samples.
    pub fn default_config() -> (c: BenchmarkConfig)
        ensures
            c.element_count == DEFAULT_ELEMENT_COUNT,
            c.thread_count == DEFAULT_THREAD_COUNT,
            c.measurement_time_nanos == DEFAULT_MEASUREMENT_SECS * NANOS_PER_SEC,
            c.sample_size == DEFAULT_SAMPLE_SIZE,
            c.outlier_multiple == DEFAULT_OUTLIER_MULTIPLE,
            c.wf(),
    {
        BenchmarkConfig {
            element_count: DEFAULT_ELEMENT_COUNT,
            thread_count: DEFAULT_THREAD_COUNT,
            measurement_time_nanos: DEFAULT_MEASUREMENT_SECS * NANOS_PER_SEC,
            sample_size: DEFAULT_SAMPLE_SIZE,
            outlier_multiple: DEFAULT_OUTLIER_MULTIPLE,
        }
    }
}

} // verus!
