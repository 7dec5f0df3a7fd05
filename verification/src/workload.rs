//! Deterministic key-value workload generation.
//!
//! A workload is an ordered sequence of `(key, value)` pairs to insert into
//! the container under test: pair `i` is `(i, i)` for `i` in
//! `[0, element_count)`. Generation is a pure, total function of
//! `element_count`, so every trial of a run inserts exactly the same data.

use vstd::prelude::*;

verus! {

/// The workload of a given size, as a mathematical sequence: pair `i` is `(i, i)`.
pub open spec fn workload_seq(element_count: u64) -> Seq<(u64, u64)> {
    Seq::new(element_count as nat, |i: int| (i as u64, i as u64))
}

/// Builds the workload for `element_count` elements: the pairs
/// `(0, 0), (1, 1), ..., (element_count - 1, element_count - 1)` in order.
pub fn generate_workload(element_count: u64) -> (pairs: Vec<(u64, u64)>)
    ensures
        pairs@ == workload_seq(element_count),
{
    let mut pairs: Vec<(u64, u64)> = Vec::new();
    let mut i: u64 = 0;
    while i < element_count
        invariant
            i <= element_count,
            pairs@ == workload_seq(i),
        decreases element_count - i,
    {
        pairs.push((i, i));
        proof {
            assert(pairs@ =~= workload_seq((i + 1) as u64));
        }
        i = i + 1;
    }
    pairs
}

/// Workload generation is deterministic: any two sequences built for the
/// same `element_count` are identical, so trials are reproducible.
pub proof fn lemma_workload_deterministic(a: Seq<(u64, u64)>, b: Seq<(u64, u64)>, element_count: u64)
    requires
        a == workload_seq(element_count),
        b == workload_seq(element_count),
    ensures
        a == b,
{
}

} // verus!
