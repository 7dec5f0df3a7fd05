//! Execution strategies: how one trial drives the workload into the
//! container.
//!
//! The single-threaded strategy inserts the whole workload sequentially on
//! the calling thread. The fan-out strategy gives each worker one contiguous
//! slice of the workload (see `partition`); each worker runs `run_slice` over
//! its own slice. The spawn-and-join plumbing for the fan-out case lives with
//! the embedding program, since the verified library does not spawn threads;
//! the per-slice work and the partition itself are verified here.

use vstd::prelude::*;
use crate::container::ContainerHandle;
use crate::workload::workload_seq;

verus! {

/// The map obtained by inserting every pair of `pairs`, in order, into `m`.
pub open spec fn insert_all(m: Map<u64, u64>, pairs: Seq<(u64, u64)>) -> Map<u64, u64>
    decreases pairs.len(),
{
    if pairs.len() == 0 {
        m
    } else {
        insert_all(m, pairs.drop_last()).insert(pairs.last().0, pairs.last().1)
    }
}

/// Worker slices compose: running one slice after another inserts exactly
/// the concatenation of their pairs, so the fan-out slices of a partition,
/// taken in any interleaving that keeps each slice in order, insert the
/// same keys as one sequential pass — here stated for sequential
/// composition.
pub proof fn lemma_insert_all_append(m: Map<u64, u64>, a: Seq<(u64, u64)>, b: Seq<(u64, u64)>)
    ensures
        insert_all(m, a + b) == insert_all(insert_all(m, a), b),
    decreases b.len(),
{
    if b.len() == 0 {
        assert(a + b =~= a);
    } else {
        lemma_insert_all_append(m, a, b.drop_last());
        assert((a + b).drop_last() =~= a + b.drop_last());
        assert((a + b).last() == b.last());
    }
}

/// Two adjacent slices of the workload, run one after the other, leave the
/// container exactly as one pass over their union would: fan-out slicing
/// loses no insertion.
pub proof fn lemma_slice_composition(m: Map<u64, u64>, pairs: Seq<(u64, u64)>, a: int, b: int, c: int)
    requires
        0 <= a <= b <= c <= pairs.len(),
    ensures
        insert_all(insert_all(m, pairs.subrange(a, b)), pairs.subrange(b, c)) == insert_all(
            m,
            pairs.subrange(a, c),
        ),
{
    assert(pairs.subrange(a, c) =~= pairs.subrange(a, b) + pairs.subrange(b, c));
    lemma_insert_all_append(m, pairs.subrange(a, b), pairs.subrange(b, c));
}

/// Inserting pairs only ever adds the pairs' keys to the map's domain.
pub proof fn lemma_insert_all_dom(m: Map<u64, u64>, pairs: Seq<(u64, u64)>)
    ensures
        insert_all(m, pairs).dom() =~= m.dom().union(
            Set::new(|k: u64| exists|j: int| 0 <= j < pairs.len() && (#[trigger] pairs[j]).0 == k),
        ),
    decreases pairs.len(),
{
    if pairs.len() > 0 {
        lemma_insert_all_dom(m, pairs.drop_last());
        assert forall|k: u64|
            insert_all(m, pairs).dom().contains(k) implies m.dom().contains(k) || exists|j: int|
            0 <= j < pairs.len() && (#[trigger] pairs[j]).0 == k by {
            if k == pairs.last().0 {
                assert(pairs[pairs.len() - 1].0 == k);
            }
        }
        assert forall|k: u64|
            m.dom().contains(k) || exists|j: int|
                0 <= j < pairs.len() && (#[trigger] pairs[j]).0 == k implies insert_all(
            m,
            pairs,
        ).dom().contains(k) by {
            if !m.dom().contains(k) {
                let j = choose|j: int| 0 <= j < pairs.len() && (#[trigger] pairs[j]).0 == k;
                if j < pairs.len() - 1 {
                    assert(pairs.drop_last()[j].0 == k);
                }
            }
        }
    }
}

/// Runs one worker's share of a trial: inserts the workload pairs at
/// positions `[start, end)`, in order, into the container.
pub fn run_slice(container: ContainerHandle, workload: &Vec<(u64, u64)>, start: usize, end: usize) -> (r:
    ContainerHandle)
    requires
        start <= end <= workload@.len(),
    ensures
        r.entries() == insert_all(
            container.entries(),
            workload@.subrange(start as int, end as int),
        ),
        r.strategy() == container.strategy(),
{
    let ghost init = container.entries();
    let ghost strat = container.strategy();
    let mut c = container;
    let mut i: usize = start;
    while i < end
        invariant
            start <= i <= end <= workload@.len(),
            c.entries() == insert_all(init, workload@.subrange(start as int, i as int)),
            c.strategy() == strat,
        decreases end - i,
    {
        let pair = workload[i];
        let res = c.insert(pair.0, pair.1);
        c = res.0;
        proof {
            let sub_next = workload@.subrange(start as int, i + 1);
            assert(sub_next.drop_last() =~= workload@.subrange(start as int, i as int));
            assert(sub_next.last() == workload@[i as int]);
        }
        i = i + 1;
    }
    proof {
        assert(workload@.subrange(start as int, start as int) =~= Seq::<(u64, u64)>::empty());
    }
    c
}

/// The single-threaded execution strategy: inserts every pair of the
/// workload, in workload order, on the calling thread.
pub fn run_single_threaded(container: ContainerHandle, workload: &Vec<(u64, u64)>) -> (r:
    ContainerHandle)
    ensures
        r.entries() == insert_all(container.entries(), workload@),
        r.strategy() == container.strategy(),
{
    let n = workload.len();
    let r = run_slice(container, workload, 0, n);
    proof {
        assert(workload@.subrange(0, workload@.len() as int) =~= workload@);
    }
    r
}

/// The number of distinct keys below `bound`, as a set.
pub open spec fn keys_below(bound: u64) -> Set<u64> {
    Set::new(|k: u64| k < bound)
}

/// The key range `[0, bound)` is finite and holds exactly `bound` keys.
pub proof fn lemma_keys_below_card(bound: u64)
    ensures
        keys_below(bound).finite(),
        keys_below(bound).len() == bound,
    decreases bound,
{
    if bound == 0 {
        assert(keys_below(0) =~= Set::<u64>::empty());
    } else {
        lemma_keys_below_card((bound - 1) as u64);
        assert(keys_below(bound) =~= keys_below((bound - 1) as u64).insert((bound - 1) as u64));
    }
}

/// Single-threaded insertion law: running the full workload of
/// `element_count` pairs against a container with the given starting
/// contents maps every key of `[0, element_count)` to itself; started empty,
/// the container's observable size afterwards is exactly `element_count`.
pub proof fn lemma_single_threaded_fills(entries: Map<u64, u64>, element_count: u64)
    ensures
        forall|k: u64|
            k < element_count ==> #[trigger] insert_all(
                entries,
                workload_seq(element_count),
            ).dom().contains(k),
        forall|k: u64|
            k < element_count ==> (#[trigger] insert_all(entries, workload_seq(element_count))[k])
                == k,
        entries == Map::<u64, u64>::empty() ==> insert_all(
            entries,
            workload_seq(element_count),
        ).dom() =~= keys_below(element_count),
        entries == Map::<u64, u64>::empty() ==> insert_all(
            entries,
            workload_seq(element_count),
        ).dom().len() == element_count,
    decreases element_count,
{
    let pairs = workload_seq(element_count);
    if element_count > 0 {
        let prev = (element_count - 1) as u64;
        lemma_single_threaded_fills(entries, prev);
        assert(pairs.drop_last() =~= workload_seq(prev));
        assert(pairs.last() == (prev, prev));
        assert(insert_all(entries, pairs) == insert_all(entries, workload_seq(prev)).insert(
            prev,
            prev,
        ));
        assert forall|k: u64| k < element_count implies #[trigger] insert_all(
            entries,
            pairs,
        ).dom().contains(k) && insert_all(entries, pairs)[k] == k by {
            if k < prev {
                assert(insert_all(entries, workload_seq(prev)).dom().contains(k));
                assert(insert_all(entries, workload_seq(prev))[k] == k);
            }
        }
        assert forall|k: u64|
            k < element_count implies (#[trigger] insert_all(entries, pairs)[k]) == k by {
            assert(insert_all(entries, pairs).dom().contains(k));
        }
    }
    if entries == Map::<u64, u64>::empty() {
        lemma_insert_all_dom(entries, pairs);
        assert forall|k: u64| #[trigger]
            insert_all(entries, pairs).dom().contains(k) implies keys_below(
            element_count,
        ).contains(k) by {
            let j = choose|j: int| 0 <= j < pairs.len() && (#[trigger] pairs[j]).0 == k;
            assert(pairs[j].0 == j as u64);
        }
        assert forall|k: u64| #[trigger]
            keys_below(element_count).contains(k) implies insert_all(
            entries,
            pairs,
        ).dom().contains(k) by {
            assert(pairs[k as int].0 == k);
        }
        assert(insert_all(entries, pairs).dom() =~= keys_below(element_count));
        lemma_keys_below_card(element_count);
    }
}

} // verus!
