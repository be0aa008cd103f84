//! Monitor-side aggregation.
//!
//! Connected workers publish their per-graph vertex and edge counts on the
//! event bus; a monitor shows the arithmetic mean across workers.  The mean
//! itself is computed here; collecting the per-worker numbers and rendering
//! them is the surrounding harness's business.

use vstd::prelude::*;

verus! {

/// The sum of a sequence of counters.
pub open spec fn sum_of(s: Seq<u64>) -> int
    decreases s.len(),
{
    if s.len() == 0 {
        0
    } else {
        sum_of(s.drop_last()) + s.last()
    }
}

/// The arithmetic mean of the per-worker values of one statistic: their sum
/// divided by the number of workers.  A worker that reported nothing counts
/// as 0 in the sum but still counts as a worker.
pub fn calculate_average(values: &Vec<u64>) -> (r: u64)
    requires
        values@.len() > 0,
        sum_of(values@) <= u64::MAX,
    ensures
        r == sum_of(values@) / (values@.len() as int),
{
    proof {
        assert(values@.subrange(0, values@.len() as int) =~= values@);
        lemma_sum_prefix_bound(values@, values@.len() as int);
    }
    let mut sum: u64 = 0;
    let mut i: usize = 0;
    while i < values.len()
        invariant
            i <= values@.len(),
            sum == sum_of(values@.subrange(0, i as int)),
            sum_of(values@) <= u64::MAX,
            forall|k: int|
                0 <= k <= values@.len() ==> #[trigger] sum_of(values@.subrange(0, k)) <= sum_of(
                    values@,
                ),
        decreases values@.len() - i,
    {
        proof {
            assert(values@.subrange(0, i + 1).drop_last() =~= values@.subrange(0, i as int));
            assert(values@.subrange(0, i + 1).last() == values@[i as int]);
            assert(sum_of(values@.subrange(0, i + 1)) == sum + values@[i as int]);
            assert(sum_of(values@.subrange(0, i + 1)) <= sum_of(values@));
        }
        sum = sum + values[i];
        i = i + 1;
    }
    proof {
        assert(values@.subrange(0, values@.len() as int) =~= values@);
    }
    sum / (values.len() as u64)
}

/// Every prefix sum of a sequence of counters is at most the full sum, and
/// no prefix sum is negative.
proof fn lemma_sum_prefix_bound(s: Seq<u64>, n: int)
    requires
        0 <= n <= s.len(),
    ensures
        forall|k: int| 0 <= k <= n ==> #[trigger] sum_of(s.subrange(0, k)) <= sum_of(s.subrange(0, n)),
        sum_of(s.subrange(0, n)) >= 0,
    decreases n,
{
    if n == 0 {
        assert(sum_of(s.subrange(0, 0)) == 0);
    } else {
        lemma_sum_prefix_bound(s, n - 1);
        assert(s.subrange(0, n).drop_last() =~= s.subrange(0, n - 1));
        assert(sum_of(s.subrange(0, n)) == sum_of(s.subrange(0, n - 1)) + s.subrange(0, n).last());
        assert forall|k: int| 0 <= k <= n implies #[trigger] sum_of(s.subrange(0, k)) <= sum_of(
            s.subrange(0, n),
        ) by {
            if k < n {
                assert(sum_of(s.subrange(0, k)) <= sum_of(s.subrange(0, n - 1)));
            }
        }
    }
}

} // verus!
