//! Shared run statistics: executions attempted and crashes observed.
//!
//! The two counters only ever grow, through saturating addition, so they are
//! monotonically non-decreasing in every run; and as long as no counter
//! saturates, each equals the exact sum of the per-worker contributions
//! folded into it, in whatever order they arrive (`lemma_counter_is_sum`).

use vstd::prelude::*;

verus! {

/// Addition on a counter: exact while the sum fits, pinned at the maximum
/// once it would overflow.
pub open spec fn sat_add(a: u64, b: u64) -> u64 {
    if a + b <= u64::MAX {
        (a + b) as u64
    } else {
        u64::MAX
    }
}

/// The sum of a sequence of contributions.
pub open spec fn sum_of(contribs: Seq<u64>) -> int
    decreases contribs.len(),
{
    if contribs.len() == 0 {
        0
    } else {
        contribs[0] + sum_of(contribs.subrange(1, contribs.len() as int))
    }
}

/// The counter value after folding a sequence of contributions into `start`,
/// one saturating addition each.
pub open spec fn counter_after(start: u64, contribs: Seq<u64>) -> u64
    decreases contribs.len(),
{
    if contribs.len() == 0 {
        start
    } else {
        counter_after(sat_add(start, contribs[0]), contribs.subrange(1, contribs.len() as int))
    }
}

/// A sum of contributions is never negative.
proof fn lemma_sum_of_nonneg(contribs: Seq<u64>)
    ensures
        sum_of(contribs) >= 0,
    decreases contribs.len(),
{
    if contribs.len() > 0 {
        lemma_sum_of_nonneg(contribs.subrange(1, contribs.len() as int));
    }
}

/// A counter is monotonically non-decreasing: folding in any sequence of
/// contributions never lowers it.
pub proof fn lemma_counter_monotonic(start: u64, contribs: Seq<u64>)
    ensures
        counter_after(start, contribs) >= start,
    decreases contribs.len(),
{
    if contribs.len() > 0 {
        lemma_counter_monotonic(
            sat_add(start, contribs[0]),
            contribs.subrange(1, contribs.len() as int),
        );
    }
}

/// Absent overflow, a counter equals `start` plus the sum of the per-worker
/// contributions folded into it.
pub proof fn lemma_counter_is_sum(start: u64, contribs: Seq<u64>)
    requires
        start + sum_of(contribs) <= u64::MAX,
    ensures
        counter_after(start, contribs) == start + sum_of(contribs),
    decreases contribs.len(),
{
    if contribs.len() > 0 {
        let rest = contribs.subrange(1, contribs.len() as int);
        lemma_sum_of_nonneg(rest);
        lemma_counter_is_sum(sat_add(start, contribs[0]), rest);
    }
}

/// The pair of run counters every worker reports into.
pub struct Statistics {
    /// Total executions attempted, counted in whole batches.
    pub fuzz_cases: u64,
    /// Total crash classifications observed.
    pub num_crashes: u64,
}

impl Statistics {
    /// Fresh statistics: nothing attempted, nothing crashed.
    pub fn new() -> (s: Statistics)
        ensures
            s.fuzz_cases == 0,
            s.num_crashes == 0,
    {
        Statistics { fuzz_cases: 0, num_crashes: 0 }
    }

    /// Fold one worker's batch of executions into the execution counter.
    /// The counter never decreases.
    pub fn add_cases(&mut self, n: u64)
        ensures
            final(self).fuzz_cases == sat_add(old(self).fuzz_cases, n),
            final(self).fuzz_cases >= old(self).fuzz_cases,
            final(self).num_crashes == old(self).num_crashes,
    {
        self.fuzz_cases = self.fuzz_cases.saturating_add(n);
    }

    /// Count one observed crash. The counter never decreases.
    pub fn add_crash(&mut self)
        ensures
            final(self).num_crashes == sat_add(old(self).num_crashes, 1),
            final(self).num_crashes >= old(self).num_crashes,
            final(self).fuzz_cases == old(self).fuzz_cases,
    {
        self.num_crashes = self.num_crashes.saturating_add(1);
    }
}

} // verus!
