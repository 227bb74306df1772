//! Division of the total call count across a fixed pool of workers.
//!
//! Worker `i` out of `n` receives `total / n` calls, plus one extra call
//! when `i < total % n`, so the assigned counts over all workers add up
//! to exactly `total`.

use vstd::prelude::*;
use vstd::arithmetic::div_mod::{
    lemma_fundamental_div_mod, lemma_mod_division_less_than_divisor,
};

verus! {

/// Number of calls assigned to worker `i` when `total` calls are shared
/// by `n` workers: the even share, plus one of the remainder for the
/// lowest-ordinal workers.
pub open spec fn spec_assigned(total: int, n: int, i: int) -> int
    recommends
        n > 0,
{
    total / n + if i < total % n { 1int } else { 0int }
}

/// Calls assigned to workers `0..k` taken together.
pub open spec fn spec_assigned_sum(total: int, n: int, k: int) -> int
    recommends
        n > 0,
    decreases k,
{
    if k <= 0 {
        0
    } else {
        spec_assigned_sum(total, n, k - 1) + spec_assigned(total, n, k - 1)
    }
}

/// The count of calls that worker `worker` must issue.
pub fn calls_for_worker(total_calls: usize, num_threads: usize, worker: usize) -> (r: usize)
    requires
        num_threads > 0,
        worker < num_threads,
    ensures
        r == spec_assigned(total_calls as int, num_threads as int, worker as int),
{
    let base = total_calls / num_threads;
    let rem = total_calls % num_threads;
    if worker < rem {
        proof {
            lemma_fundamental_div_mod(total_calls as int, num_threads as int);
            assert(num_threads as int * (base as int) >= base as int) by (nonlinear_arith)
                requires
                    num_threads as int >= 1,
                    base as int >= 0,
            ;
        }
        base + 1
    } else {
        base
    }
}

/// Closed form of the partial sums of assigned counts: `k` even shares
/// plus the part of the remainder handed to the first `k` workers.
proof fn lemma_assigned_sum_closed(total: int, n: int, k: int)
    requires
        total >= 0,
        n > 0,
        0 <= k,
    ensures
        k <= total % n ==> spec_assigned_sum(total, n, k) == k * (total / n) + k,
        k > total % n ==> spec_assigned_sum(total, n, k) == k * (total / n) + total % n,
    decreases k,
{
    lemma_mod_division_less_than_divisor(total, n);
    if k > 0 {
        lemma_assigned_sum_closed(total, n, k - 1);
        assert(k * (total / n) == (k - 1) * (total / n) + total / n) by (nonlinear_arith);
        assert(spec_assigned_sum(total, n, k) == spec_assigned_sum(total, n, k - 1)
            + spec_assigned(total, n, k - 1));
        if k - 1 < total % n {
            assert(spec_assigned(total, n, k - 1) == total / n + 1);
            assert(spec_assigned_sum(total, n, k - 1) == (k - 1) * (total / n) + (k - 1));
            assert(spec_assigned_sum(total, n, k) == k * (total / n) + k);
            assert(k <= total % n);
        } else {
            assert(spec_assigned(total, n, k - 1) == total / n);
            assert(spec_assigned_sum(total, n, k - 1) == (k - 1) * (total / n) + total % n);
            assert(spec_assigned_sum(total, n, k) == k * (total / n) + total % n);
            assert(k > total % n);
        }
    }
}

/// The assigned counts partition the total: over all `n` workers they add
/// up to exactly `total`, each worker receives the even share or one more,
/// and the workers with the extra call are exactly the first
/// `total % n` by ordinal.
pub proof fn lemma_assignment_partition(total: int, n: int)
    requires
        total >= 0,
        n > 0,
    ensures
        spec_assigned_sum(total, n, n) == total,
        forall|i: int|
            0 <= i < n ==> (#[trigger] spec_assigned(total, n, i) == total / n
                || spec_assigned(total, n, i) == total / n + 1),
        forall|i: int|
            0 <= i < n ==> ((#[trigger] spec_assigned(total, n, i)) == total / n + 1 <==> i < total
                % n),
{
    lemma_assigned_sum_closed(total, n, n);
    lemma_mod_division_less_than_divisor(total, n);
    lemma_fundamental_div_mod(total, n);
}

} // verus!
