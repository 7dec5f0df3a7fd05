//! Statistical aggregation over a frozen sample set.
//!
//! All statistics are computed in integer nanoseconds: arithmetic mean,
//! variance and standard deviation (the variance saturates at `u128::MAX`
//! in the astronomically unlikely case that the sum of squared deviations
//! overflows), an approximate normal-theory confidence half-width, derived
//! throughput in elements per second, and outlier flags for trials whose
//! duration deviates from the mean by more than a configured multiple of
//! the standard deviation.

use vstd::prelude::*;
use vstd::arithmetic::div_mod::lemma_div_is_ordered;
use vstd::arithmetic::div_mod::lemma_div_multiples_vanish;
use vstd::arithmetic::mul::lemma_mul_inequality;
use vstd::arithmetic::mul::lemma_mul_is_commutative;

verus! {

/// The sum of a sequence of durations.
pub open spec fn sum_seq(s: Seq<u64>) -> int
    decreases s.len(),
{
    if s.len() == 0 {
        0
    } else {
        sum_seq(s.drop_last()) + s.last()
    }
}

/// The arithmetic mean of a non-empty sequence, rounded down.
pub open spec fn mean_spec(s: Seq<u64>) -> int {
    sum_seq(s) / s.len() as int
}

/// The sum is bounded by the length times the extremes of the elements.
pub proof fn lemma_sum_seq_bounds(s: Seq<u64>)
    ensures
        0 <= sum_seq(s) <= s.len() * u64::MAX,
        (forall|i: int| 0 <= i < s.len() ==> #[trigger] s[i] >= 1) ==> s.len() <= sum_seq(s),
    decreases s.len(),
{
    if s.len() == 0 {
    } else {
        lemma_sum_seq_bounds(s.drop_last());
        assert(s.drop_last().len() * u64::MAX + u64::MAX == s.len() * u64::MAX) by (nonlinear_arith)
            requires s.len() >= 1 && s.drop_last().len() == s.len() - 1;
        if forall|i: int| 0 <= i < s.len() ==> #[trigger] s[i] >= 1 {
            assert(forall|i: int|
                0 <= i < s.drop_last().len() ==> #[trigger] s.drop_last()[i] >= 1);
            assert(s.last() >= 1);
        }
    }
}

/// Sums a sample set's durations. The sum of fewer than `usize::MAX`
/// durations of at most `u64::MAX` nanoseconds each always fits in `u128`.
pub fn sum_nanos(durations: &Vec<u64>) -> (total: u128)
    ensures
        total == sum_seq(durations@),
{
    let mut total: u128 = 0;
    let mut i: usize = 0;
    while i < durations.len()
        invariant
            i <= durations@.len(),
            total == sum_seq(durations@.take(i as int)),
            total <= i * u64::MAX,
        decreases durations@.len() - i,
    {
        proof {
            assert(durations@.take(i + 1).drop_last() =~= durations@.take(i as int));
            assert((i as int) * u64::MAX + u64::MAX == (i + 1) * u64::MAX) by (nonlinear_arith);
            lemma_mul_inequality((i + 1) as int, usize::MAX as int, u64::MAX as int);
        }
        total = total + durations[i] as u128;
        i = i + 1;
    }
    proof {
        assert(durations@.take(durations@.len() as int) =~= durations@);
    }
    total
}

/// The arithmetic mean duration of a non-empty sample set. The mean of
/// strictly positive durations is itself strictly positive, and never above
/// the largest possible duration.
pub fn mean_nanos(durations: &Vec<u64>) -> (mean: u128)
    requires
        durations@.len() >= 1,
        forall|i: int| 0 <= i < durations@.len() ==> #[trigger] durations@[i] >= 1,
    ensures
        mean == mean_spec(durations@),
        1 <= mean <= u64::MAX,
{
    let n = durations.len();
    let total = sum_nanos(durations);
    proof {
        lemma_sum_seq_bounds(durations@);
        lemma_div_is_ordered(n as int, sum_seq(durations@), n as int);
        lemma_div_is_ordered(sum_seq(durations@), n as int * u64::MAX, n as int);
        lemma_mul_is_commutative(n as int, u64::MAX as int);
        lemma_div_multiples_vanish(u64::MAX as int, n as int);
        assert(n as int / n as int == 1) by (nonlinear_arith)
            requires n >= 1;
    }
    total / (n as u128)
}

/// A duration's absolute deviation from the mean.
pub open spec fn abs_dev(x: u64, mean: int) -> int {
    if x >= mean {
        x - mean
    } else {
        mean - x
    }
}

/// Addition that saturates at `u128::MAX`.
pub open spec fn sat_add(a: int, b: int) -> int {
    if a + b > u128::MAX {
        u128::MAX as int
    } else {
        a + b
    }
}

/// The sum of squared deviations from `mean`, saturating at `u128::MAX`.
pub open spec fn sum_sq_dev(s: Seq<u64>, mean: int) -> int
    decreases s.len(),
{
    if s.len() == 0 {
        0
    } else {
        sat_add(sum_sq_dev(s.drop_last(), mean), abs_dev(s.last(), mean) * abs_dev(s.last(), mean))
    }
}

/// The population variance of a non-empty sequence about `mean`.
pub open spec fn variance_spec(s: Seq<u64>, mean: int) -> int {
    sum_sq_dev(s, mean) / s.len() as int
}

/// The sum of squared deviations stays within `u128`.
pub proof fn lemma_sum_sq_dev_bounds(s: Seq<u64>, mean: int)
    ensures
        0 <= sum_sq_dev(s, mean) <= u128::MAX,
    decreases s.len(),
{
    if s.len() > 0 {
        lemma_sum_sq_dev_bounds(s.drop_last(), mean);
        let d = abs_dev(s.last(), mean);
        assert(d * d >= 0) by (nonlinear_arith);
    }
}

/// Computes the population variance of the sample set about `mean`:
/// the saturated sum of squared deviations, divided by the sample count.
pub fn variance_nanos(durations: &Vec<u64>, mean: u128) -> (variance: u128)
    requires
        durations@.len() >= 1,
        mean <= u64::MAX,
    ensures
        variance == variance_spec(durations@, mean as int),
{
    let n = durations.len();
    let mut acc: u128 = 0;
    let mut i: usize = 0;
    while i < n
        invariant
            i <= durations@.len(),
            n == durations@.len(),
            mean <= u64::MAX,
            acc == sum_sq_dev(durations@.take(i as int), mean as int),
            acc <= u128::MAX,
        decreases durations@.len() - i,
    {
        let x = durations[i];
        let dev: u128 = if (x as u128) >= mean {
            x as u128 - mean
        } else {
            mean - x as u128
        };
        proof {
            assert(dev <= u64::MAX);
            assert(dev * dev <= u64::MAX * u64::MAX) by (nonlinear_arith)
                requires dev <= u64::MAX;
            assert(u64::MAX * u64::MAX < u128::MAX) by (nonlinear_arith);
            assert(durations@.take(i + 1).drop_last() =~= durations@.take(i as int));
        }
        let sq: u128 = dev * dev;
        acc = if acc <= u128::MAX - sq {
            acc + sq
        } else {
            u128::MAX
        };
        i = i + 1;
    }
    proof {
        assert(durations@.take(durations@.len() as int) =~= durations@);
        lemma_sum_sq_dev_bounds(durations@, mean as int);
    }
    acc / (n as u128)
}

/// The integer square root: the largest integer whose square is at most `x`.
pub open spec fn sqrt_floor(x: int) -> int
    decreases x,
{
    if x < 1 {
        0
    } else {
        let r = sqrt_floor(x - 1);
        if (r + 1) * (r + 1) <= x {
            r + 1
        } else {
            r
        }
    }
}

/// `sqrt_floor` is exactly characterised by the two square bounds.
pub proof fn lemma_sqrt_floor_bounds(x: int)
    requires
        0 <= x,
    ensures
        sqrt_floor(x) * sqrt_floor(x) <= x,
        x < (sqrt_floor(x) + 1) * (sqrt_floor(x) + 1),
        0 <= sqrt_floor(x),
    decreases x,
{
    if x >= 1 {
        lemma_sqrt_floor_bounds(x - 1);
        let r = sqrt_floor(x - 1);
        if (r + 1) * (r + 1) <= x {
            assert((r + 2) * (r + 2) > x) by (nonlinear_arith)
                requires (r + 1) * (r + 1) > x - 1 && r >= 0 && (r + 1) * (r + 1) <= x;
        }
    }
}

/// The square bounds pin the root down: any integer meeting them is
/// `sqrt_floor(x)`.
pub proof fn lemma_sqrt_floor_unique(x: int, r: int)
    requires
        0 <= x,
        0 <= r,
        r * r <= x,
        x < (r + 1) * (r + 1),
    ensures
        r == sqrt_floor(x),
{
    lemma_sqrt_floor_bounds(x);
    let s = sqrt_floor(x);
    if r < s {
        assert(false) by (nonlinear_arith)
            requires 0 <= r < s && s * s <= x && x < (r + 1) * (r + 1);
    } else if s < r {
        assert(false) by (nonlinear_arith)
            requires 0 <= s < r && r * r <= x && x < (s + 1) * (s + 1);
    }
}

/// Computes the integer square root of `v` by binary search.
pub fn isqrt_u128(v: u128) -> (r: u64)
    ensures
        r == sqrt_floor(v as int),
{
    let mut lo: u128 = 0;
    let mut hi: u128 = u64::MAX as u128 + 1;
    proof {
        assert((u64::MAX as int + 1) * (u64::MAX as int + 1) > u128::MAX as int) by (nonlinear_arith);
    }
    while lo + 1 < hi
        invariant
            lo < hi <= u64::MAX as u128 + 1,
            lo * lo <= v,
            (hi as int) * (hi as int) > v,
        decreases hi - lo,
    {
        let mid: u128 = lo + (hi - lo) / 2;
        proof {
            assert(lo < mid < hi);
            assert(mid * mid <= u64::MAX * u64::MAX) by (nonlinear_arith)
                requires mid <= u64::MAX;
            assert(u64::MAX * u64::MAX < u128::MAX) by (nonlinear_arith);
        }
        let sq: u128 = mid * mid;
        if sq <= v {
            lo = mid;
        } else {
            hi = mid;
        }
    }
    proof {
        assert(hi == lo + 1);
        lemma_sqrt_floor_unique(v as int, lo as int);
    }
    lo as u64
}

/// Which trials are outliers: those whose duration deviates from the mean
/// by more than `threshold` nanoseconds.
pub open spec fn outlier_flags_spec(s: Seq<u64>, mean: int, threshold: int) -> Seq<bool> {
    Seq::new(s.len(), |i: int| abs_dev(s[i], mean) > threshold)
}

/// Flags each trial whose duration deviates from `mean` by more than
/// `multiple` standard deviations.
pub fn flag_outliers(durations: &Vec<u64>, mean: u128, std_dev: u64, multiple: u64) -> (flags: Vec<
    bool,
>)
    requires
        mean <= u64::MAX,
    ensures
        flags@ == outlier_flags_spec(
            durations@,
            mean as int,
            (multiple as int) * (std_dev as int),
        ),
{
    proof {
        lemma_mul_inequality(multiple as int, u64::MAX as int, std_dev as int);
        lemma_mul_is_commutative(u64::MAX as int, std_dev as int);
        lemma_mul_inequality(std_dev as int, u64::MAX as int, u64::MAX as int);
        assert(u64::MAX * u64::MAX < u128::MAX) by (nonlinear_arith);
    }
    let threshold: u128 = (multiple as u128) * (std_dev as u128);
    let mut flags: Vec<bool> = Vec::new();
    let mut i: usize = 0;
    while i < durations.len()
        invariant
            i <= durations@.len(),
            mean <= u64::MAX,
            threshold == (multiple as int) * (std_dev as int),
            flags@ =~= outlier_flags_spec(durations@, mean as int, threshold as int).take(i as int),
        decreases durations@.len() - i,
    {
        let x = durations[i];
        let dev: u128 = if (x as u128) >= mean {
            x as u128 - mean
        } else {
            mean - x as u128
        };
        flags.push(dev > threshold);
        i = i + 1;
    }
    proof {
        let full = outlier_flags_spec(durations@, mean as int, threshold as int);
        assert(full.take(full.len() as int) =~= full);
    }
    flags
}

/// How many trials are flagged.
pub open spec fn count_true(flags: Seq<bool>) -> int
    decreases flags.len(),
{
    if flags.len() == 0 {
        0
    } else {
        count_true(flags.drop_last()) + (if flags.last() {
            1int
        } else {
            0int
        })
    }
}

/// The durations that survive outlier removal, in their original order.
pub open spec fn keep_unflagged(s: Seq<u64>, flags: Seq<bool>) -> Seq<u64>
    decreases s.len(),
{
    if s.len() == 0 {
        Seq::empty()
    } else {
        let rest = keep_unflagged(s.drop_last(), flags.drop_last());
        if s.len() <= flags.len() && !flags[s.len() - 1] {
            rest.push(s.last())
        } else {
            rest
        }
    }
}

/// Outlier removal keeps durations strictly positive.
pub proof fn lemma_keep_unflagged_wf(s: Seq<u64>, flags: Seq<bool>)
    requires
        forall|i: int| 0 <= i < s.len() ==> #[trigger] s[i] >= 1,
    ensures
        forall|i: int|
            0 <= i < keep_unflagged(s, flags).len() ==> #[trigger] keep_unflagged(s, flags)[i]
                >= 1,
        keep_unflagged(s, flags).len() <= s.len(),
    decreases s.len(),
{
    if s.len() > 0 {
        assert(forall|i: int| 0 <= i < s.drop_last().len() ==> #[trigger] s.drop_last()[i] >= 1);
        lemma_keep_unflagged_wf(s.drop_last(), flags.drop_last());
        assert(s.last() >= 1);
    }
}

/// Counts the flagged trials and gathers the unflagged durations.
pub fn split_outliers(durations: &Vec<u64>, flags: &Vec<bool>) -> (r: (usize, Vec<u64>))
    requires
        flags@.len() == durations@.len(),
    ensures
        r.0 == count_true(flags@),
        r.1@ == keep_unflagged(durations@, flags@),
{
    let mut kept: Vec<u64> = Vec::new();
    let mut flagged: usize = 0;
    let mut i: usize = 0;
    while i < durations.len()
        invariant
            i <= durations@.len(),
            flags@.len() == durations@.len(),
            flagged == count_true(flags@.take(i as int)),
            flagged <= i,
            kept@ == keep_unflagged(durations@.take(i as int), flags@.take(i as int)),
        decreases durations@.len() - i,
    {
        proof {
            assert(durations@.take(i + 1).drop_last() =~= durations@.take(i as int));
            assert(flags@.take(i + 1).drop_last() =~= flags@.take(i as int));
        }
        if flags[i] {
            flagged = flagged + 1;
        } else {
            kept.push(durations[i]);
        }
        i = i + 1;
    }
    proof {
        assert(durations@.take(durations@.len() as int) =~= durations@);
        assert(flags@.take(flags@.len() as int) =~= flags@);
    }
    (flagged, kept)
}

/// Throughput in elements per second for a mean trial duration in
/// nanoseconds, rounded down.
pub open spec fn throughput_spec(element_count: u64, mean: int) -> int {
    element_count * crate::config::NANOS_PER_SEC / mean
}

/// Derives the throughput from the mean trial duration.
pub fn throughput_per_sec(element_count: u64, mean: u128) -> (r: u128)
    requires
        1 <= mean,
    ensures
        r == throughput_spec(element_count, mean as int),
{
    proof {
        lemma_mul_inequality(
            element_count as int,
            u64::MAX as int,
            crate::config::NANOS_PER_SEC as int,
        );
        lemma_mul_is_commutative(u64::MAX as int, crate::config::NANOS_PER_SEC as int);
        lemma_mul_inequality(crate::config::NANOS_PER_SEC as int, u64::MAX as int, u64::MAX as int);
        assert(u64::MAX * u64::MAX < u128::MAX) by (nonlinear_arith);
    }
    (element_count as u128) * (crate::config::NANOS_PER_SEC as u128) / mean
}

/// The normal-approximation confidence half-width about the mean, in
/// nanoseconds: `1.96 * std_dev / sqrt(count)` computed in integer
/// hundredths with the square root rounded down.
pub open spec fn ci_half_width_spec(std_dev: int, count: int) -> int {
    196 * std_dev / (100 * sqrt_floor(count))
}

/// Computes the confidence half-width for a non-empty sample set.
pub fn ci_half_width(std_dev: u64, count: usize) -> (hw: u128)
    requires
        count >= 1,
    ensures
        hw == ci_half_width_spec(std_dev as int, count as int),
{
    let sqrt_n = isqrt_u128(count as u128);
    proof {
        lemma_sqrt_floor_bounds(count as int);
        if sqrt_n == 0 {
            assert((sqrt_floor(count as int) + 1) * (sqrt_floor(count as int) + 1) == 1)
                by (nonlinear_arith)
                requires sqrt_floor(count as int) == 0;
            assert(false);
        }
        assert(196 * (std_dev as int) <= 196 * (u64::MAX as int)) by (nonlinear_arith)
            requires std_dev <= u64::MAX;
        lemma_mul_inequality(sqrt_n as int, u64::MAX as int, 100);
        lemma_mul_is_commutative(sqrt_n as int, 100);
        lemma_mul_is_commutative(u64::MAX as int, 100);
    }
    (196u128 * std_dev as u128) / (100u128 * sqrt_n as u128)
}

/// The aggregated statistics for one configuration's frozen sample set.
/// Raw and outlier-adjusted figures are both reported, so measurement noise
/// can be judged rather than silently suppressed.
pub struct SummaryStats {
    /// Number of trials measured.
    pub count: usize,
    /// Arithmetic mean trial duration, nanoseconds.
    pub mean_nanos: u128,
    /// Population variance of the trial durations.
    pub variance: u128,
    /// Standard deviation: integer square root of the variance.
    pub std_dev_nanos: u64,
    /// Normal-approximation confidence half-width about the mean.
    pub ci_half_width_nanos: u128,
    /// Elements inserted per second, from the raw mean.
    pub throughput_per_sec: u128,
    /// One flag per trial, in trial order: whether it is an outlier.
    pub outlier_flags: Vec<bool>,
    /// How many trials are flagged.
    pub outlier_count: usize,
    /// Mean over the unflagged trials; the raw mean when every trial is
    /// flagged.
    pub adjusted_mean_nanos: u128,
    /// Elements inserted per second, from the outlier-adjusted mean.
    pub adjusted_throughput_per_sec: u128,
}

impl SummaryStats {
    /// What the summary of a sample set for a given configuration states,
    /// field by field.
    pub open spec fn describes(self, s: Seq<u64>, element_count: u64, outlier_multiple: u64) -> bool {
        let mean = mean_spec(s);
        let variance = variance_spec(s, mean);
        let sd = sqrt_floor(variance);
        let flags = outlier_flags_spec(s, mean, outlier_multiple * sd);
        let kept = keep_unflagged(s, flags);
        let adjusted = if kept.len() >= 1 {
            mean_spec(kept)
        } else {
            mean
        };
        &&& self.count == s.len()
        &&& self.mean_nanos == mean
        &&& self.variance == variance
        &&& self.std_dev_nanos == sd
        &&& self.ci_half_width_nanos == ci_half_width_spec(sd, s.len() as int)
        &&& self.throughput_per_sec == throughput_spec(element_count, mean)
        &&& self.outlier_flags@ == flags
        &&& self.outlier_count == count_true(flags)
        &&& self.adjusted_mean_nanos == adjusted
        &&& self.adjusted_throughput_per_sec == throughput_spec(element_count, adjusted)
    }
}

/// Computes the full summary of a frozen, non-empty sample set: raw mean,
/// variance, standard deviation, confidence half-width, throughput, outlier
/// flags and the outlier-adjusted mean and throughput.
pub fn summarize(durations: &Vec<u64>, element_count: u64, outlier_multiple: u64) -> (summary:
    SummaryStats)
    requires
        durations@.len() >= 1,
        forall|i: int| 0 <= i < durations@.len() ==> #[trigger] durations@[i] >= 1,
    ensures
        summary.describes(durations@, element_count, outlier_multiple),
{
    let count = durations.len();
    let mean = mean_nanos(durations);
    let variance = variance_nanos(durations, mean);
    proof {
        lemma_sum_sq_dev_bounds(durations@, mean as int);
        lemma_div_is_ordered(
            sum_sq_dev(durations@, mean as int),
            u128::MAX as int,
            durations@.len() as int,
        );
        lemma_sqrt_floor_bounds(variance as int);
        assert(sqrt_floor(variance as int) <= u64::MAX) by {
            if sqrt_floor(variance as int) > u64::MAX {
                assert((sqrt_floor(variance as int)) * (sqrt_floor(variance as int))
                    > u128::MAX) by (nonlinear_arith)
                    requires sqrt_floor(variance as int) > u64::MAX;
            }
        }
    }
    let std_dev = isqrt_u128(variance);
    let hw = ci_half_width(std_dev, count);
    let throughput = throughput_per_sec(element_count, mean);
    let flags = flag_outliers(durations, mean, std_dev, outlier_multiple);
    let (outlier_count, kept) = split_outliers(durations, &flags);
    proof {
        lemma_keep_unflagged_wf(durations@, flags@);
    }
    let adjusted_mean = if kept.len() >= 1 {
        mean_nanos(&kept)
    } else {
        mean
    };
    let adjusted_throughput = throughput_per_sec(element_count, adjusted_mean);
    SummaryStats {
        count,
        mean_nanos: mean,
        variance,
        std_dev_nanos: std_dev,
        ci_half_width_nanos: hw,
        throughput_per_sec: throughput,
        outlier_flags: flags,
        outlier_count,
        adjusted_mean_nanos: adjusted_mean,
        adjusted_throughput_per_sec: adjusted_throughput,
    }
}

} // verus!
