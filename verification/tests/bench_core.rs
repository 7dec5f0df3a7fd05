use mapbench::config::BenchmarkConfig;
use mapbench::container::ContainerHandle;
use mapbench::container::HashStrategy;
use mapbench::partition::plan_slices;
use mapbench::report::format_u128;
use mapbench::report::render_report;
use mapbench::report::render_row;
use mapbench::report::ReportRow;
use mapbench::sampler::bench_single_threaded;
use mapbench::sampler::sample_single_threaded;
use mapbench::sampler::Sampler;
use mapbench::sampler::TrialError;
use mapbench::stats::ci_half_width;
use mapbench::stats::flag_outliers;
use mapbench::stats::isqrt_u128;
use mapbench::stats::mean_nanos;
use mapbench::stats::split_outliers;
use mapbench::stats::summarize;
use mapbench::stats::sum_nanos;
use mapbench::stats::throughput_per_sec;
use mapbench::stats::variance_nanos;
use mapbench::stats::SummaryStats;
use mapbench::timer::Measurement;
use mapbench::timer::TrialTimer;
use mapbench::workload::generate_workload;

fn small_config(sample_size: usize, measurement_time_nanos: u64) -> BenchmarkConfig {
    BenchmarkConfig {
        element_count: 100,
        thread_count: 4,
        measurement_time_nanos,
        sample_size,
        outlier_multiple: 2,
    }
}

#[test]
fn workload_pairs_are_identity() {
    let w = generate_workload(10);
    assert_eq!(w.len(), 10);
    for i in 0..10u64 {
        assert_eq!(w[i as usize], (i, i));
    }
}

#[test]
fn workload_generation_is_deterministic() {
    let a = generate_workload(1000);
    let b = generate_workload(1000);
    assert_eq!(a, b);
}

#[test]
fn default_config_holds_the_fixed_constants() {
    let c = BenchmarkConfig::default_config();
    assert_eq!(c.element_count, 100_000);
    assert_eq!(c.thread_count, 4);
    assert_eq!(c.measurement_time_nanos, 10_000_000_000);
    assert_eq!(c.sample_size, 50);
}

#[test]
fn slices_front_load_the_remainder() {
    let plan = plan_slices(10, 4);
    assert_eq!(plan.len(), 4);
    let widths: Vec<u64> = plan.iter().map(|s| s.end - s.start).collect();
    assert_eq!(widths, vec![3, 3, 2, 2]);
    assert_eq!(plan[0].start, 0);
    assert_eq!(plan[0].end, 3);
    assert_eq!(plan[1].start, 3);
    assert_eq!(plan[2].start, 6);
    assert_eq!(plan[3].start, 8);
    assert_eq!(plan[3].end, 10);
}

#[test]
fn slices_partition_every_key_exactly_once() {
    for (element_count, thread_count) in [(10u64, 4u64), (100u64, 7u64), (5u64, 8u64), (0u64, 3u64)]
    {
        let plan = plan_slices(element_count, thread_count);
        assert_eq!(plan.len(), thread_count as usize);
        let mut covered = vec![0usize; element_count as usize];
        for s in &plan {
            for k in s.start..s.end {
                covered[k as usize] += 1;
            }
        }
        assert!(covered.iter().all(|&c| c == 1));
        for w in plan.windows(2) {
            assert_eq!(w[0].end, w[1].start);
        }
    }
}

#[test]
fn four_even_slices_of_the_default_workload() {
    let plan = plan_slices(100_000, 4);
    assert_eq!(plan.len(), 4);
    for (i, s) in plan.iter().enumerate() {
        assert_eq!(s.end - s.start, 25_000);
        assert_eq!(s.start, 25_000 * i as u64);
    }
    assert_eq!(plan[3].end, 100_000);
}

#[test]
fn single_threaded_run_fills_the_container() {
    let w = generate_workload(100_000);
    let c = ContainerHandle::new(HashStrategy::SipHash);
    let c = mapbench::strategy::run_single_threaded(c, &w);
    assert_eq!(c.len(), 100_000);
}

#[test]
fn single_threaded_run_fills_the_ahash_container() {
    let w = generate_workload(5_000);
    let c = ContainerHandle::new(HashStrategy::AHash);
    let c = mapbench::strategy::run_single_threaded(c, &w);
    assert_eq!(c.len(), 5_000);
}

#[test]
fn slice_runs_cover_the_whole_workload() {
    let w = generate_workload(10);
    let plan = plan_slices(10, 4);
    let mut c = ContainerHandle::new(HashStrategy::SipHash);
    for s in &plan {
        c = mapbench::strategy::run_slice(c, &w, s.start as usize, s.end as usize);
    }
    assert_eq!(c.len(), 10);
}

#[test]
fn four_slices_fill_the_default_workload_exactly() {
    let w = generate_workload(100_000);
    let plan = plan_slices(100_000, 4);
    let mut c = ContainerHandle::new(HashStrategy::AHash);
    for s in &plan {
        c = mapbench::strategy::run_slice(c, &w, s.start as usize, s.end as usize);
    }
    assert_eq!(c.len(), 100_000);
    // Reported throughput is exactly element_count / mean duration.
    let durations: Vec<u64> = vec![2_000_000, 2_000_000, 2_000_000];
    let s = summarize(&durations, 100_000, 2);
    assert_eq!(s.mean_nanos, 2_000_000);
    assert_eq!(s.throughput_per_sec, 100_000u128 * 1_000_000_000 / 2_000_000);
}

#[test]
fn insert_reports_the_previous_value() {
    let c = ContainerHandle::new(HashStrategy::SipHash);
    let (c, prev) = c.insert(7, 40);
    assert_eq!(prev, None);
    let (c, prev) = c.insert(7, 41);
    assert_eq!(prev, Some(40));
    assert_eq!(c.len(), 1);
}

#[test]
fn measurements_are_never_non_positive() {
    assert_eq!(Measurement::from_raw_nanos(0).nanos, 1);
    assert_eq!(Measurement::from_raw_nanos(17).nanos, 17);
    assert_eq!(Measurement::from_raw_nanos(u128::MAX).nanos, u64::MAX);
    let timer = TrialTimer::start();
    let m = timer.stop();
    assert!(m.nanos >= 1);
}

#[test]
fn sampler_stops_at_the_sample_size() {
    let config = small_config(3, u64::MAX);
    let mut sampler = Sampler::new();
    for _ in 0..5 {
        sampler.record(Measurement::from_raw_nanos(10), &config);
    }
    assert_eq!(sampler.set.durations.len(), 3);
}

#[test]
fn sampler_stops_when_the_time_budget_elapses() {
    let config = small_config(100, 50);
    let mut sampler = Sampler::new();
    sampler.record(Measurement::from_raw_nanos(49), &config);
    assert!(sampler.should_continue(&config));
    sampler.record(Measurement::from_raw_nanos(1), &config);
    // The budget is hit exactly: the transition instant freezes the set.
    assert!(!sampler.should_continue(&config));
    sampler.record(Measurement::from_raw_nanos(1), &config);
    assert_eq!(sampler.set.durations.len(), 2);
    assert_eq!(sampler.total_nanos, 50);
}

#[test]
fn failed_trial_aborts_and_adds_no_measurement() {
    let config = small_config(10, u64::MAX);
    let mut sampler = Sampler::new();
    sampler.record(Measurement::from_raw_nanos(5), &config);
    let r = sampler.absorb_trial(Err(TrialError::WorkerFailure), &config);
    assert_eq!(r, Err(TrialError::WorkerFailure));
    assert_eq!(sampler.set.durations, vec![5]);
    assert_eq!(sampler.total_nanos, 5);
    let r = sampler.absorb_trial(Ok(Measurement::from_raw_nanos(7)), &config);
    assert_eq!(r, Ok(()));
    assert_eq!(sampler.set.durations, vec![5, 7]);
}

#[test]
fn sampling_a_real_configuration_respects_both_bounds() {
    let config = small_config(3, u64::MAX);
    let set = sample_single_threaded(&config, HashStrategy::SipHash);
    assert_eq!(set.durations.len(), 3);
    assert!(set.durations.iter().all(|&d| d >= 1));
}

#[test]
fn sampling_runs_until_a_stopping_bound_is_hit() {
    // A one-nanosecond budget: the first trial exhausts it, so the set is
    // frozen with its durations summing to at least the budget.
    let config = small_config(1000, 1);
    let set = sample_single_threaded(&config, HashStrategy::SipHash);
    assert_eq!(set.durations.len(), 1);
    let total: u128 = set.durations.iter().map(|&d| d as u128).sum();
    assert!(total >= 1);
}

#[test]
fn sums_and_means_are_exact() {
    let durations: Vec<u64> = vec![1, 2, 3, 4];
    assert_eq!(sum_nanos(&durations), 10);
    assert_eq!(mean_nanos(&durations), 2);
    let single: Vec<u64> = vec![9];
    assert_eq!(mean_nanos(&single), 9);
}

#[test]
fn variance_and_std_dev_are_exact() {
    let durations: Vec<u64> = vec![1, 2, 3, 4];
    // Deviations from the mean 2 are 1, 0, 1, 2: squares sum to 6.
    assert_eq!(variance_nanos(&durations, 2), 1);
    assert_eq!(isqrt_u128(1), 1);
    let same: Vec<u64> = vec![5, 5, 5];
    assert_eq!(variance_nanos(&same, 5), 0);
}

#[test]
fn integer_square_root_brackets_its_argument() {
    assert_eq!(isqrt_u128(0), 0);
    assert_eq!(isqrt_u128(1), 1);
    assert_eq!(isqrt_u128(15), 3);
    assert_eq!(isqrt_u128(16), 4);
    assert_eq!(isqrt_u128(u128::MAX), u64::MAX);
}

#[test]
fn throughput_derives_from_the_mean_duration() {
    // 100,000 elements in a mean of 2 ms is 50,000,000 elements per second.
    assert_eq!(throughput_per_sec(100_000, 2_000_000), 50_000_000);
    assert_eq!(throughput_per_sec(10, 2), 5_000_000_000);
}

#[test]
fn outliers_are_flagged_and_removed_from_the_adjusted_mean() {
    let durations: Vec<u64> = vec![1, 2, 3, 4];
    let flags = flag_outliers(&durations, 2, 1, 1);
    assert_eq!(flags, vec![false, false, false, true]);
    let (count, kept) = split_outliers(&durations, &flags);
    assert_eq!(count, 1);
    assert_eq!(kept, vec![1, 2, 3]);
    let flags = flag_outliers(&durations, 2, 1, 2);
    assert_eq!(flags, vec![false, false, false, false]);
}

#[test]
fn confidence_half_width_uses_the_square_root_of_the_count() {
    // 1.96 * 10 / sqrt(4) = 9 rounded down (integer hundredths).
    assert_eq!(ci_half_width(10, 4), 1960 / 200);
    assert_eq!(ci_half_width(0, 9), 0);
}

#[test]
fn summary_reports_raw_and_adjusted_statistics() {
    let durations: Vec<u64> = vec![1, 2, 3, 4];
    let s = summarize(&durations, 10, 1);
    assert_eq!(s.count, 4);
    assert_eq!(s.mean_nanos, 2);
    assert_eq!(s.variance, 1);
    assert_eq!(s.std_dev_nanos, 1);
    assert_eq!(s.throughput_per_sec, 5_000_000_000);
    assert_eq!(s.outlier_flags, vec![false, false, false, true]);
    assert_eq!(s.outlier_count, 1);
    assert_eq!(s.adjusted_mean_nanos, 2);
    assert_eq!(s.adjusted_throughput_per_sec, 5_000_000_000);
}

#[test]
fn benchmarking_a_configuration_end_to_end() {
    let config = small_config(5, u64::MAX);
    let (set, summary) = bench_single_threaded(&config, HashStrategy::AHash);
    assert_eq!(set.durations.len(), 5);
    assert_eq!(summary.count, 5);
    assert!(summary.mean_nanos >= 1);
    let expected = 100u128 * 1_000_000_000 / summary.mean_nanos;
    assert_eq!(summary.throughput_per_sec, expected);
}

#[test]
fn numbers_render_in_decimal() {
    assert_eq!(format_u128(0), "0");
    assert_eq!(format_u128(7), "7");
    assert_eq!(format_u128(12_345), "12345");
    assert_eq!(format_u128(100_000), "100000");
    assert_eq!(
        format_u128(u128::MAX),
        "340282366920938463463374607431768211455"
    );
}

fn sample_summary() -> SummaryStats {
    SummaryStats {
        count: 2,
        mean_nanos: 5,
        variance: 4,
        std_dev_nanos: 2,
        ci_half_width_nanos: 1,
        throughput_per_sec: 4000,
        outlier_flags: vec![false, false],
        outlier_count: 0,
        adjusted_mean_nanos: 5,
        adjusted_throughput_per_sec: 4000,
    }
}

#[test]
fn a_report_row_renders_every_figure() {
    let out = render_row("dashmap with siphash/single-threaded", &sample_summary());
    assert_eq!(
        out,
        "dashmap with siphash/single-threaded: samples 2, mean 5 ns, throughput 4000 elems/s, \
         std dev 2 ns, ci +/- 1 ns, outliers 0, adjusted throughput 4000 elems/s"
    );
}

#[test]
fn the_report_keeps_configuration_order() {
    let rows = vec![
        ReportRow { label: String::from("first"), stats: sample_summary() },
        ReportRow { label: String::from("second"), stats: sample_summary() },
    ];
    let out = render_report(&rows);
    let lines: Vec<&str> = out.lines().collect();
    assert_eq!(lines.len(), 2);
    assert!(lines[0].starts_with("first: "));
    assert!(lines[1].starts_with("second: "));
}
