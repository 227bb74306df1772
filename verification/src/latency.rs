//! The shared log of per-call round-trip times and its aggregation.
//!
//! Durations are held as whole nanoseconds. One entry is recorded per
//! completed call, whether the call succeeded or failed, so a finished
//! run leaves exactly one entry per assigned call. The report's average
//! response time is the arithmetic mean over every entry.

use vstd::prelude::*;
use vstd::arithmetic::div_mod::{lemma_div_is_ordered, lemma_div_by_multiple};
use crate::assign::{lemma_assignment_partition, spec_assigned, spec_assigned_sum};

verus! {

/// Sum of the recorded durations, in nanoseconds.
pub open spec fn sum_nanos(s: Seq<u64>) -> int
    decreases s.len(),
{
    if s.len() == 0 {
        0
    } else {
        sum_nanos(s.drop_last()) + s.last()
    }
}

/// The ordered sequence of recorded round-trip times, one per completed
/// call.
pub struct LatencyLog {
    entries: Vec<u64>,
}

impl View for LatencyLog {
    type V = Seq<u64>;

    closed spec fn view(&self) -> Seq<u64> {
        self.entries@
    }
}

impl LatencyLog {
    /// An empty log, made once before the workers start.
    pub fn new() -> (r: LatencyLog)
        ensures
            r@ == Seq::<u64>::empty(),
    {
        LatencyLog { entries: Vec::new() }
    }

    /// Append one call's elapsed time. Success and failure are recorded
    /// alike: the entry is the duration only.
    pub fn record(&mut self, elapsed_nanos: u64)
        ensures
            final(self)@ == old(self)@.push(elapsed_nanos),
    {
        self.entries.push(elapsed_nanos);
    }

    /// Number of recorded calls.
    pub fn len(&self) -> (r: usize)
        ensures
            r == self@.len(),
    {
        self.entries.len()
    }

    /// The `i`-th recorded duration.
    pub fn get(&self, i: usize) -> (r: u64)
        requires
            i < self@.len(),
        ensures
            r == self@[i as int],
    {
        self.entries[i]
    }

    /// Total of every recorded duration, in nanoseconds.
    pub fn total_nanos(&self) -> (r: u128)
        ensures
            r == sum_nanos(self@),
    {
        let n = self.entries.len();
        let mut acc: u128 = 0;
        let mut i: usize = 0;
        while i < n
            invariant
                i <= n,
                n == self@.len(),
                acc as int == sum_nanos(self@.subrange(0, i as int)),
                acc as int <= i as int * (u64::MAX as int),
            decreases n - i,
        {
            proof {
                assert(self@.subrange(0, i + 1).drop_last() =~= self@.subrange(0, i as int));
                assert(self@.subrange(0, i + 1).last() == self@[i as int]);
            }
            acc = acc + self.entries[i] as u128;
            i = i + 1;
        }
        proof {
            assert(self@.subrange(0, n as int) =~= self@);
        }
        acc
    }

    /// Arithmetic mean of every recorded duration, in whole nanoseconds;
    /// there is none when nothing was recorded.
    pub fn average_nanos(&self) -> (r: Option<u64>)
        ensures
            match r {
                Some(m) => self@.len() > 0 && m == sum_nanos(self@) / self@.len() as int,
                None => self@.len() == 0,
            },
    {
        let n = self.entries.len();
        if n == 0 {
            return None;
        }
        let total = self.total_nanos();
        proof {
            lemma_sum_nanos_bounds(self@);
            lemma_div_by_multiple(u64::MAX as int, n as int);
            lemma_div_is_ordered(
                sum_nanos(self@),
                self@.len() as int * (u64::MAX as int),
                n as int,
            );
        }
        let mean = total / (n as u128);
        Some(mean as u64)
    }
}

proof fn lemma_sum_nanos_bounds(s: Seq<u64>)
    ensures
        0 <= sum_nanos(s) <= s.len() * (u64::MAX as int),
    decreases s.len(),
{
    if s.len() > 0 {
        lemma_sum_nanos_bounds(s.drop_last());
    }
}

/// Total length of a sequence of worker logs.
pub open spec fn seq_total_len(seqs: Seq<Seq<u64>>) -> int
    decreases seqs.len(),
{
    if seqs.len() == 0 {
        0
    } else {
        seq_total_len(seqs.drop_last()) + seqs.last().len()
    }
}

proof fn lemma_flatten_len(seqs: Seq<Seq<u64>>)
    ensures
        seqs.flatten().len() == seq_total_len(seqs),
    decreases seqs.len(),
{
    seqs.lemma_flatten_and_flatten_alt_are_equivalent();
    if seqs.len() == 0 {
        assert(seqs.flatten() =~= Seq::<u64>::empty());
    } else {
        lemma_flatten_len(seqs.drop_last());
        seqs.drop_last().lemma_flatten_and_flatten_alt_are_equivalent();
        assert(seqs.flatten_alt() == seqs.drop_last().flatten_alt().add(seqs.last()));
    }
}

proof fn lemma_prefix_total_len(per_worker: Seq<Seq<u64>>, total: int, n: int, k: int)
    requires
        n > 0,
        per_worker.len() <= n,
        0 <= k <= per_worker.len(),
        forall|i: int|
            0 <= i < per_worker.len() ==> (#[trigger] per_worker[i]).len() == spec_assigned(
                total,
                n,
                i,
            ),
    ensures
        seq_total_len(per_worker.subrange(0, k)) == spec_assigned_sum(total, n, k),
    decreases k,
{
    if k == 0 {
        assert(per_worker.subrange(0, 0) =~= Seq::<Seq<u64>>::empty());
    } else {
        lemma_prefix_total_len(per_worker, total, n, k - 1);
        assert(per_worker.subrange(0, k).drop_last() =~= per_worker.subrange(0, k - 1));
        assert(per_worker.subrange(0, k).last() == per_worker[k - 1]);
    }
}

/// One entry per call: when each of the `n` workers has contributed
/// exactly its assigned share of entries, the combined log holds exactly
/// `total` entries, however the workers' appends interleaved.
pub proof fn lemma_complete_run_length(per_worker: Seq<Seq<u64>>, total: int, n: int)
    requires
        n > 0,
        total >= 0,
        per_worker.len() == n,
        forall|i: int|
            0 <= i < n ==> (#[trigger] per_worker[i]).len() == spec_assigned(total, n, i),
    ensures
        per_worker.flatten().len() == total,
{
    lemma_flatten_len(per_worker);
    lemma_prefix_total_len(per_worker, total, n, n);
    assert(per_worker.subrange(0, n) =~= per_worker);
    lemma_assignment_partition(total, n);
}

} // verus!
