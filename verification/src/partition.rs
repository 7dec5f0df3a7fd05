//! Partitioning a workload across a fixed number of concurrent workers.
//!
//! The fan-out execution strategy splits the key range `[0, element_count)`
//! into `thread_count` contiguous slices. The remainder policy is
//! front-loaded: the first `element_count % thread_count` slices each get one
//! extra element, so slice sizes differ by at most one and together the
//! slices cover every key exactly once.

use vstd::prelude::*;
use vstd::arithmetic::div_mod::{lemma_fundamental_div_mod, lemma_mod_bound};

verus! {

/// Width of worker slice `i`: the quotient of the division, plus one for
/// the first `element_count % thread_count` slices.
pub open spec fn slice_width(element_count: int, thread_count: int, i: int) -> int {
    let q = element_count / thread_count;
    let r = element_count % thread_count;
    if i < r {
        q + 1
    } else {
        q
    }
}

/// Start of worker slice `i`: slice 0 starts at key 0, and each slice starts
/// where the previous one ends.
pub open spec fn slice_lo(element_count: int, thread_count: int, i: int) -> int
    decreases i,
{
    if i <= 0 {
        0
    } else {
        slice_lo(element_count, thread_count, i - 1) + slice_width(
            element_count,
            thread_count,
            i - 1,
        )
    }
}

/// Whether key `key` falls in worker slice `i`.
pub open spec fn in_slice(element_count: int, thread_count: int, i: int, key: int) -> bool {
    slice_lo(element_count, thread_count, i) <= key < slice_lo(element_count, thread_count, i + 1)
}

/// Closed form of `slice_lo`: slice `i` starts at `i * quotient` plus one
/// extra for each remainder element handed to an earlier slice.
pub proof fn lemma_slice_lo_closed(element_count: int, thread_count: int, i: int)
    requires
        0 <= element_count,
        1 <= thread_count,
        0 <= i,
    ensures
        slice_lo(element_count, thread_count, i) == i * (element_count / thread_count) + (
        if i <= element_count % thread_count {
            i
        } else {
            element_count % thread_count
        }),
    decreases i,
{
    let q = element_count / thread_count;
    let r = element_count % thread_count;
    lemma_mod_bound(element_count, thread_count);
    if i == 0 {
        assert(slice_lo(element_count, thread_count, 0) == 0);
        assert(0 * q == 0) by (nonlinear_arith);
    } else {
        lemma_slice_lo_closed(element_count, thread_count, i - 1);
        assert(i * q == (i - 1) * q + q) by (nonlinear_arith);
        assert(slice_lo(element_count, thread_count, i) == slice_lo(
            element_count,
            thread_count,
            i - 1,
        ) + slice_width(element_count, thread_count, i - 1));
        if i - 1 < r {
            assert(slice_lo(element_count, thread_count, i) == (i - 1) * q + (i - 1) + (q + 1));
        } else {
            assert(slice_lo(element_count, thread_count, i) == (i - 1) * q + r + q);
        }
    }
}

/// The slices exhaust the key range: the end of the last slice is exactly
/// `element_count`.
pub proof fn lemma_slices_cover(element_count: int, thread_count: int)
    requires
        0 <= element_count,
        1 <= thread_count,
    ensures
        slice_lo(element_count, thread_count, thread_count) == element_count,
{
    lemma_slice_lo_closed(element_count, thread_count, thread_count);
    lemma_fundamental_div_mod(element_count, thread_count);
    lemma_mod_bound(element_count, thread_count);
    assert(thread_count * (element_count / thread_count) == (element_count / thread_count)
        * thread_count) by (nonlinear_arith);
}

/// Slice starts never decrease.
pub proof fn lemma_slice_lo_monotone(element_count: int, thread_count: int, i: int, j: int)
    requires
        0 <= element_count,
        1 <= thread_count,
        0 <= i <= j,
    ensures
        slice_lo(element_count, thread_count, i) <= slice_lo(element_count, thread_count, j),
    decreases j - i,
{
    lemma_mod_bound(element_count, thread_count);
    if i < j {
        lemma_slice_lo_monotone(element_count, thread_count, i, j - 1);
        assert(element_count / thread_count >= 0) by (nonlinear_arith)
            requires 0 <= element_count && 1 <= thread_count;
    }
}

/// Fan-out partition law: every key of `[0, element_count)` lies in exactly
/// one worker slice — none is skipped and none is handed to two workers,
/// whatever the remainder of the division.
pub proof fn lemma_slices_partition(element_count: int, thread_count: int, key: int)
    requires
        1 <= thread_count,
        0 <= key < element_count,
    ensures
        exists|i: int|
            0 <= i < thread_count && in_slice(element_count, thread_count, i, key),
        forall|i: int, j: int|
            (0 <= i < thread_count && 0 <= j < thread_count && in_slice(
                element_count,
                thread_count,
                i,
                key,
            ) && in_slice(element_count, thread_count, j, key)) ==> i == j,
{
    lemma_slices_cover(element_count, thread_count);
    lemma_slice_in_existence(element_count, thread_count, thread_count, key);
    assert forall|i: int, j: int|
        (0 <= i < thread_count && 0 <= j < thread_count && in_slice(
            element_count,
            thread_count,
            i,
            key,
        ) && in_slice(element_count, thread_count, j, key)) implies i == j by {
        if i < j {
            lemma_slice_lo_monotone(element_count, thread_count, i + 1, j);
        } else if j < i {
            lemma_slice_lo_monotone(element_count, thread_count, j + 1, i);
        }
    }
}

/// Any key below the end of slice `m - 1` lies in one of the first `m` slices.
proof fn lemma_slice_in_existence(element_count: int, thread_count: int, m: int, key: int)
    requires
        1 <= thread_count,
        1 <= m,
        0 <= key < slice_lo(element_count, thread_count, m),
    ensures
        exists|i: int| 0 <= i < m && in_slice(element_count, thread_count, i, key),
    decreases m,
{
    if slice_lo(element_count, thread_count, m - 1) <= key {
        assert(in_slice(element_count, thread_count, m - 1, key));
    } else {
        lemma_slice_in_existence(element_count, thread_count, m - 1, key);
        let i = choose|i: int| 0 <= i < m - 1 && in_slice(element_count, thread_count, i, key);
        assert(in_slice(element_count, thread_count, i, key));
    }
}

/// One worker's contiguous half-open key range `[start, end)`.
#[derive(Clone, Copy, PartialEq, Eq, Structural, Debug)]
pub struct SliceBounds {
    pub start: u64,
    pub end: u64,
}

impl SliceBounds {
    /// The number of keys the slice holds.
    pub open spec fn width(self) -> int {
        self.end - self.start
    }
}

/// Computes the fan-out partition of `[0, element_count)` into
/// `thread_count` contiguous slices, front-loading the remainder: slice `i`
/// is `[slice_lo(i), slice_lo(i + 1))`.
pub fn plan_slices(element_count: u64, thread_count: u64) -> (plan: Vec<SliceBounds>)
    requires
        1 <= thread_count,
    ensures
        plan@.len() == thread_count,
        forall|i: int|
            0 <= i < thread_count ==> (#[trigger] plan@[i]).start == slice_lo(
                element_count as int,
                thread_count as int,
                i,
            ),
        forall|i: int|
            0 <= i < thread_count ==> (#[trigger] plan@[i]).end == slice_lo(
                element_count as int,
                thread_count as int,
                i + 1,
            ),
{
    let ghost n = element_count as int;
    let ghost t = thread_count as int;
    let q: u64 = element_count / thread_count;
    let r: u64 = element_count % thread_count;
    let mut plan: Vec<SliceBounds> = Vec::new();
    let mut cur: u64 = 0;
    let mut i: u64 = 0;
    proof {
        lemma_mod_bound(n, t);
        lemma_slices_cover(n, t);
    }
    while i < thread_count
        invariant
            i <= thread_count,
            plan@.len() == i,
            q == n / t,
            r == n % t,
            1 <= t,
            n == element_count,
            t == thread_count,
            0 <= n % t < t,
            slice_lo(n, t, t) == n,
            cur == slice_lo(n, t, i as int),
            forall|j: int|
                0 <= j < i ==> (#[trigger] plan@[j]).start == slice_lo(n, t, j) && plan@[j].end
                    == slice_lo(n, t, j + 1),
        decreases thread_count - i,
    {
        proof {
            lemma_slice_lo_monotone(n, t, i as int, t);
            lemma_slice_lo_monotone(n, t, i as int + 1, t);
            assert(slice_lo(n, t, i as int + 1) == cur + slice_width(n, t, i as int));
            assert(q >= 0) by (nonlinear_arith)
                requires q == n / t && 0 <= n && 1 <= t;
        }
        let width: u64 = if i < r {
            q + 1
        } else {
            q
        };
        let end: u64 = cur + width;
        plan.push(SliceBounds { start: cur, end });
        cur = end;
        i = i + 1;
    }
    plan
}

} // verus!
