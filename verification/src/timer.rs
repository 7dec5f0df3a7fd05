//! The trial timer: wall-clock measurement of one trial.
//!
//! A trial is timed by reading the monotonic clock immediately before the
//! execution strategy runs and immediately after it returns. The monotonic
//! clock never goes backwards under system clock adjustment, but its
//! readings are opaque, so the raw elapsed reading is clamped into a
//! `Measurement`, which is strictly positive by construction.

use vstd::prelude::*;
use std::time::Duration;
use std::time::Instant;

verus! {

#[verifier::external_type_specification]
#[verifier::external_body]
pub struct ExInstant(Instant);

/// Relies on std::time::Instant::now: an opaque reading of the monotonic
/// clock. Nothing is assumed of the value produced.
#[verifier::external_body]
fn monotonic_now() -> Instant {
    Instant::now()
}

/// Relies on std::time::Instant::elapsed: the time since `start`, by the
/// monotonic clock. The value depends on when the call happens, so nothing
/// is assumed of it.
#[verifier::external_body]
fn elapsed_since(start: &Instant) -> Duration {
    start.elapsed()
}

/// Relies on std::time::Duration::as_nanos: the duration as a total count of
/// whole nanoseconds. `Duration` is opaque here, so nothing more is assumed.
#[verifier::external_body]
fn duration_as_nanos(d: &Duration) -> u128 {
    d.as_nanos()
}

/// How a raw nanosecond reading becomes a measurement: clamped to at least
/// one nanosecond (a trial is never reported as instantaneous or negative)
/// and saturated at `u64::MAX`.
pub open spec fn clamp_nanos(raw: u128) -> u64 {
    if raw == 0 {
        1u64
    } else if raw > u64::MAX {
        u64::MAX
    } else {
        raw as u64
    }
}

/// One trial's elapsed wall-clock duration, in nanoseconds.
#[derive(Clone, Copy, PartialEq, Eq, Structural, Debug)]
pub struct Measurement {
    pub nanos: u64,
}

impl Measurement {
    /// A measurement is valid when its duration is strictly positive.
    pub open spec fn wf(self) -> bool {
        self.nanos >= 1
    }

    /// Builds a measurement from a raw nanosecond reading.
    pub fn from_raw_nanos(raw: u128) -> (m: Measurement)
        ensures
            m.nanos == clamp_nanos(raw),
            m.wf(),
    {
        if raw == 0 {
            Measurement { nanos: 1 }
        } else if raw > u64::MAX as u128 {
            Measurement { nanos: u64::MAX }
        } else {
            Measurement { nanos: raw as u64 }
        }
    }
}

/// The trial timer: a monotonic-clock reading taken when a trial starts.
pub struct TrialTimer {
    start: Instant,
}

impl TrialTimer {
    /// Starts timing a trial: records the monotonic clock now.
    pub fn start() -> TrialTimer {
        TrialTimer { start: monotonic_now() }
    }

    /// Stops timing: the elapsed duration since `start`, as a measurement.
    /// The reported duration is never non-positive.
    pub fn stop(self) -> (m: Measurement)
        ensures
            m.wf(),
    {
        let d = elapsed_since(&self.start);
        Measurement::from_raw_nanos(duration_as_nanos(&d))
    }
}

} // verus!
