//! The sampler: repeated trials for one configuration, and the stopping
//! policy.
//!
//! One configuration is sampled by running trials until either the target
//! sample count is reached or the cumulative measured time exhausts the
//! measurement budget, whichever comes first. A trial that fails (a worker
//! crash, an exhausted container) aborts the run for that configuration and
//! contributes no measurement.

use vstd::prelude::*;
use crate::config::BenchmarkConfig;
use crate::container::ContainerHandle;
use crate::container::HashStrategy;
use crate::strategy::run_single_threaded;
use crate::timer::Measurement;
use crate::timer::TrialTimer;
use crate::workload::generate_workload;

verus! {

/// Why a trial, and with it the whole run, is aborted. No retry is ever
/// attempted: absorbing a failed trial into the statistics would bias them.
#[derive(Clone, Copy, PartialEq, Eq, Structural, Debug)]
pub enum TrialError {
    /// A worker thread terminated abnormally during a fan-out trial.
    WorkerFailure,
    /// The container could not grow to accept further insertions.
    ContainerExhaustion,
}

/// The trial durations gathered for one configuration, in nanoseconds,
/// in the order the trials ran.
pub struct SampleSet {
    pub durations: Vec<u64>,
}

impl SampleSet {
    /// Every gathered duration is strictly positive.
    pub open spec fn wf(self) -> bool {
        forall|i: int| 0 <= i < self.durations@.len() ==> #[trigger] self.durations@[i] >= 1
    }
}

/// The sampling phase for one configuration: the set gathered so far and
/// the cumulative measured time.
pub struct Sampler {
    pub set: SampleSet,
    pub total_nanos: u128,
}

impl Sampler {
    /// Sampling continues only while both stopping bounds are unmet: fewer
    /// samples than the target, and a not yet exhausted time budget.
    pub open spec fn spec_should_continue(self, config: BenchmarkConfig) -> bool {
        self.set.durations@.len() < config.sample_size && self.total_nanos
            < config.measurement_time_nanos
    }

    /// The sampler's invariant against its configuration.
    pub open spec fn wf(self, config: BenchmarkConfig) -> bool {
        &&& self.set.wf()
        &&& self.set.durations@.len() <= config.sample_size
    }

    /// A fresh sampling phase: nothing gathered, no time spent.
    pub fn new() -> (s: Sampler)
        ensures
            s.set.durations@.len() == 0,
            s.total_nanos == 0,
    {
        Sampler { set: SampleSet { durations: Vec::new() }, total_nanos: 0 }
    }

    /// Whether another trial should run.
    pub fn should_continue(&self, config: &BenchmarkConfig) -> (b: bool)
        ensures
            b == self.spec_should_continue(*config),
    {
        self.set.durations.len() < config.sample_size && self.total_nanos
            < config.measurement_time_nanos as u128
    }

    /// Records one completed trial's measurement — unless a stopping bound
    /// has already been hit, in which case the sample set stays frozen.
    pub fn record(&mut self, m: Measurement, config: &BenchmarkConfig)
        requires
            old(self).wf(*config),
            m.wf(),
        ensures
            final(self).wf(*config),
            old(self).spec_should_continue(*config) ==> final(self).set.durations@ == old(
                self,
            ).set.durations@.push(m.nanos) && final(self).total_nanos == old(self).total_nanos
                + m.nanos,
            !old(self).spec_should_continue(*config) ==> *final(self) == *old(self),
    {
        if self.should_continue(config) {
            self.set.durations.push(m.nanos);
            self.total_nanos = self.total_nanos + m.nanos as u128;
        }
    }

    /// Folds one trial outcome into the run. A measurement is recorded; a
    /// failed trial aborts the run and leaves the sample set untouched, so
    /// no partial trial is ever averaged into the statistics.
    pub fn absorb_trial(
        &mut self,
        outcome: Result<Measurement, TrialError>,
        config: &BenchmarkConfig,
    ) -> (r: Result<(), TrialError>)
        requires
            old(self).wf(*config),
            (match outcome {
                Ok(m) => m.wf(),
                Err(_) => true,
            }),
        ensures
            final(self).wf(*config),
            (match outcome {
                Ok(m) => r == Ok::<(), TrialError>(()) && (if old(self).spec_should_continue(
                    *config,
                ) {
                    final(self).set.durations@ == old(self).set.durations@.push(m.nanos)
                } else {
                    *final(self) == *old(self)
                }),
                Err(e) => r == Err::<(), TrialError>(e) && *final(self) == *old(self),
            }),
    {
        match outcome {
            Ok(m) => {
                self.record(m, config);
                Ok(())
            },
            Err(e) => Err(e),
        }
    }
}

/// Sample-bound law: a well-formed sampler never holds more samples than
/// the configured size, and sampling never continues once the
/// measurement-time budget has elapsed.
pub proof fn lemma_sampling_bounds(s: Sampler, config: BenchmarkConfig)
    requires
        s.wf(config),
    ensures
        s.set.durations@.len() <= config.sample_size,
        s.total_nanos >= config.measurement_time_nanos ==> !s.spec_should_continue(config),
{
}

/// Samples one single-threaded configuration from start to finish: runs
/// trials — fresh workload, fresh container, timed full insertion — until a
/// stopping bound is hit, and returns the frozen sample set. The set really
/// was sampled to a bound: it holds the full target number of samples, or
/// its durations together exhaust the measurement-time budget.
pub fn sample_single_threaded(config: &BenchmarkConfig, strategy: HashStrategy) -> (s: SampleSet)
    requires
        config.wf(),
    ensures
        s.wf(),
        1 <= s.durations@.len() <= config.sample_size,
        s.durations@.len() == config.sample_size || crate::stats::sum_seq(s.durations@)
            >= config.measurement_time_nanos,
{
    let mut sampler = Sampler::new();
    proof {
        assert(sampler.set.durations@ =~= Seq::<u64>::empty());
    }
    while sampler.should_continue(config)
        invariant
            config.wf(),
            sampler.wf(*config),
            sampler.total_nanos == crate::stats::sum_seq(sampler.set.durations@),
            sampler.set.durations@.len() == 0 ==> sampler.total_nanos == 0,
        decreases config.sample_size - sampler.set.durations@.len(),
    {
        let workload = generate_workload(config.element_count);
        let container = ContainerHandle::new(strategy);
        let timer = TrialTimer::start();
        let container = run_single_threaded(container, &workload);
        let m = timer.stop();
        let _ = container;
        let ghost pre = sampler.set.durations@;
        sampler.record(m, config);
        proof {
            assert(pre.push(m.nanos).drop_last() =~= pre);
        }
    }
    sampler.set
}

/// Benchmarks one single-threaded configuration end to end: samples it
/// until a stopping bound is hit, then summarizes the frozen sample set.
pub fn bench_single_threaded(config: &BenchmarkConfig, strategy: HashStrategy) -> (r: (
    SampleSet,
    crate::stats::SummaryStats,
))
    requires
        config.wf(),
    ensures
        r.0.wf(),
        1 <= r.0.durations@.len() <= config.sample_size,
        r.0.durations@.len() == config.sample_size || crate::stats::sum_seq(r.0.durations@)
            >= config.measurement_time_nanos,
        r.1.describes(r.0.durations@, config.element_count, config.outlier_multiple),
{
    let set = sample_single_threaded(config, strategy);
    let summary = crate::stats::summarize(&set.durations, config.element_count, config.outlier_multiple);
    (set, summary)
}

} // verus!
