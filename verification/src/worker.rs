//! The per-worker classification and batching state machine.
//!
//! A worker repeats: mutate a copy of the seed, hand the bytes to the target,
//! and feed the termination status into `observe`. `observe` classifies the
//! status, names the artifact path when the run crashed, advances the
//! per-worker crash count, and reports when a whole batch of executions is
//! complete so the caller can fold the batch into the shared execution
//! counter. The surrounding program performs the file writes and the
//! subprocess runs; everything `observe` decides is pinned by `step_state`,
//! and the lemmas at the end state how a whole run of statuses moves the
//! counters.

use vstd::prelude::*;

use crate::paths::{crash_path, crash_path_spec};
use crate::status::{classify, is_crash, ExecStatus, Platform};

verus! {

/// Number of executions a worker attempts between two updates of the shared
/// execution counter.
pub const BATCH_SIZE: u64 = 100;

/// One worker's private loop state.
pub struct WorkerState {
    /// The identity that namespaces this worker's file paths.
    pub worker_id: u64,
    /// How this worker's platform exposes a crash.
    pub platform: Platform,
    /// The seed filename, the suffix of every path this worker writes.
    pub filename: String,
    /// Executions attempted in the current batch so far.
    pub batch_pos: u64,
    /// Crashes this worker has observed; names the next crash artifact.
    pub crashes: u64,
}

/// What the caller must do after one observed execution: persist the bytes
/// under the artifact path if the run crashed, and fold a full batch into
/// the shared execution counter if one just completed.
pub struct StepOutcome {
    /// Whether the execution classified as a crash.
    pub crash: bool,
    /// The path to persist the mutated input under, exactly when the
    /// execution classified as a crash.
    pub artifact_path: Option<String>,
    /// Whether this execution completed a batch of `BATCH_SIZE` runs.
    pub completed_batch: bool,
}

/// The batch position after one more execution: wraps to zero when the
/// batch is complete.
pub open spec fn next_batch_pos(pos: u64) -> u64
    recommends
        pos < BATCH_SIZE,
{
    if pos + 1 == BATCH_SIZE {
        0
    } else {
        (pos + 1) as u64
    }
}

/// The worker state after observing one termination status.
pub open spec fn step_state(w: WorkerState, st: ExecStatus) -> WorkerState {
    WorkerState {
        batch_pos: next_batch_pos(w.batch_pos),
        crashes: if is_crash(w.platform, st) {
            (w.crashes + 1) as u64
        } else {
            w.crashes
        },
        ..w
    }
}

/// The worker state after observing a whole sequence of termination
/// statuses, one execution each.
pub open spec fn run_state(w: WorkerState, sts: Seq<ExecStatus>) -> WorkerState
    decreases sts.len(),
{
    if sts.len() == 0 {
        w
    } else {
        run_state(step_state(w, sts[0]), sts.subrange(1, sts.len() as int))
    }
}

/// How many of the statuses classify as crashes on platform `p`.
pub open spec fn count_crashes(p: Platform, sts: Seq<ExecStatus>) -> int
    decreases sts.len(),
{
    if sts.len() == 0 {
        0
    } else {
        (if is_crash(p, sts[0]) {
            1int
        } else {
            0int
        }) + count_crashes(p, sts.subrange(1, sts.len() as int))
    }
}

/// How many batches complete over `n` executions starting at batch
/// position `pos`.
pub open spec fn completed_batches(pos: u64, n: nat) -> int
    recommends
        pos < BATCH_SIZE,
    decreases n,
{
    if n == 0 {
        0
    } else {
        (if pos + 1 == BATCH_SIZE {
            1int
        } else {
            0int
        }) + completed_batches(next_batch_pos(pos), (n - 1) as nat)
    }
}

impl WorkerState {
    /// A worker's batch position always lies inside one batch.
    pub open spec fn wf(&self) -> bool {
        self.batch_pos < BATCH_SIZE
    }

    /// A fresh worker at the start of its first batch, with no crash
    /// observed yet.
    pub fn new(worker_id: u64, platform: Platform, filename: String) -> (w: WorkerState)
        ensures
            w.wf(),
            w.worker_id == worker_id,
            w.platform == platform,
            w.filename@ == filename@,
            w.batch_pos == 0,
            w.crashes == 0,
    {
        WorkerState { worker_id, platform, filename, batch_pos: 0, crashes: 0 }
    }

    /// Feed one termination status into the worker: classify it, name the
    /// artifact path on a crash, and advance the batch. The new state is
    /// exactly `step_state` of the old.
    pub fn observe(&mut self, st: &ExecStatus) -> (out: StepOutcome)
        requires
            old(self).wf(),
            old(self).crashes < u64::MAX,
        ensures
            final(self).wf(),
            *final(self) == step_state(*old(self), *st),
            out.crash == is_crash(old(self).platform, *st),
            out.completed_batch == (old(self).batch_pos + 1 == BATCH_SIZE),
            out.crash ==> match out.artifact_path {
                Some(p) => p@ == crash_path_spec(
                    old(self).worker_id,
                    old(self).crashes,
                    old(self).filename@,
                ),
                None => false,
            },
            !out.crash ==> out.artifact_path is None,
    {
        let crash = classify(self.platform, st);
        let artifact_path = if crash {
            let p = crash_path(self.worker_id, self.crashes, self.filename.as_str());
            self.crashes = self.crashes + 1;
            Some(p)
        } else {
            None
        };
        let completed_batch = self.batch_pos + 1 == BATCH_SIZE;
        if completed_batch {
            self.batch_pos = 0;
        } else {
            self.batch_pos = self.batch_pos + 1;
        }
        StepOutcome { crash, artifact_path, completed_batch }
    }
}

/// No sequence of statuses shows more crashes than it has entries.
proof fn lemma_count_crashes_bounds(p: Platform, sts: Seq<ExecStatus>)
    ensures
        0 <= count_crashes(p, sts) <= sts.len(),
    decreases sts.len(),
{
    if sts.len() > 0 {
        lemma_count_crashes_bounds(p, sts.subrange(1, sts.len() as int));
    }
}

/// Over a whole run, the crash count grows by exactly one per execution
/// that classifies as a crash, and everything that names the worker stays.
pub proof fn lemma_run_crash_count(w: WorkerState, sts: Seq<ExecStatus>)
    requires
        w.wf(),
        w.crashes + sts.len() <= u64::MAX,
    ensures
        run_state(w, sts).crashes == w.crashes + count_crashes(w.platform, sts),
        run_state(w, sts).worker_id == w.worker_id,
        run_state(w, sts).platform == w.platform,
        run_state(w, sts).filename == w.filename,
        run_state(w, sts).wf(),
    decreases sts.len(),
{
    if sts.len() > 0 {
        let rest = sts.subrange(1, sts.len() as int);
        lemma_count_crashes_bounds(w.platform, rest);
        lemma_run_crash_count(step_state(w, sts[0]), rest);
    }
}

/// A run in which no status classifies as a crash shows zero crashes.
pub proof fn lemma_clean_run_counts_no_crash(p: Platform, sts: Seq<ExecStatus>)
    requires
        forall|i: int| 0 <= i < sts.len() ==> !is_crash(p, #[trigger] sts[i]),
    ensures
        count_crashes(p, sts) == 0,
    decreases sts.len(),
{
    if sts.len() > 0 {
        let rest = sts.subrange(1, sts.len() as int);
        assert forall|i: int| 0 <= i < rest.len() implies !is_crash(p, #[trigger] rest[i]) by {
            assert(rest[i] == sts[i + 1]);
        }
        lemma_clean_run_counts_no_crash(p, rest);
    }
}

/// The crash counts under which a worker persists artifacts over a run: the
/// value of its crash counter at each execution that classifies as a crash.
pub open spec fn artifact_counters(w: WorkerState, sts: Seq<ExecStatus>) -> Seq<u64>
    decreases sts.len(),
{
    if sts.len() == 0 {
        Seq::empty()
    } else {
        let rest = artifact_counters(step_state(w, sts[0]), sts.subrange(1, sts.len() as int));
        if is_crash(w.platform, sts[0]) {
            seq![w.crashes] + rest
        } else {
            rest
        }
    }
}

/// Every artifact count used during a run is at least the crash counter the
/// run started from.
proof fn lemma_artifact_counters_lower_bound(w: WorkerState, sts: Seq<ExecStatus>)
    requires
        w.crashes + sts.len() <= u64::MAX,
    ensures
        forall|k: int|
            0 <= k < artifact_counters(w, sts).len() ==> #[trigger] artifact_counters(
                w,
                sts,
            )[k] >= w.crashes,
    decreases sts.len(),
{
    if sts.len() > 0 {
        let w2 = step_state(w, sts[0]);
        let tail = sts.subrange(1, sts.len() as int);
        let rest = artifact_counters(w2, tail);
        lemma_artifact_counters_lower_bound(w2, tail);
        assert(w2.crashes >= w.crashes);
        if is_crash(w.platform, sts[0]) {
            assert forall|k: int|
                0 <= k < artifact_counters(w, sts).len() implies #[trigger] artifact_counters(
                w,
                sts,
            )[k] >= w.crashes by {
                if k > 0 {
                    assert(artifact_counters(w, sts)[k] == rest[k - 1]);
                    assert(rest[k - 1] >= w2.crashes);
                }
            }
        } else {
            assert forall|k: int|
                0 <= k < artifact_counters(w, sts).len() implies #[trigger] artifact_counters(
                w,
                sts,
            )[k] >= w.crashes by {
                assert(artifact_counters(w, sts)[k] == rest[k]);
                assert(rest[k] >= w2.crashes);
            }
        }
    }
}

/// The artifact counts a worker uses over a run are pairwise distinct, as
/// long as its crash counter cannot saturate.
proof fn lemma_artifact_counters_distinct(w: WorkerState, sts: Seq<ExecStatus>)
    requires
        w.crashes + sts.len() <= u64::MAX,
    ensures
        forall|i: int, j: int|
            0 <= i < j < artifact_counters(w, sts).len() ==> artifact_counters(w, sts)[i]
                != artifact_counters(w, sts)[j],
    decreases sts.len(),
{
    if sts.len() > 0 {
        let w2 = step_state(w, sts[0]);
        let tail = sts.subrange(1, sts.len() as int);
        let rest = artifact_counters(w2, tail);
        lemma_artifact_counters_distinct(w2, tail);
        lemma_artifact_counters_lower_bound(w2, tail);
        if is_crash(w.platform, sts[0]) {
            assert(w2.crashes == w.crashes + 1);
            assert forall|i: int, j: int|
                0 <= i < j < artifact_counters(w, sts).len() implies artifact_counters(w, sts)[i]
                != artifact_counters(w, sts)[j] by {
                if i == 0 {
                    assert(artifact_counters(w, sts)[j] == rest[j - 1]);
                    assert(rest[j - 1] >= w2.crashes);
                } else {
                    assert(artifact_counters(w, sts)[i] == rest[i - 1]);
                    assert(artifact_counters(w, sts)[j] == rest[j - 1]);
                }
            }
        }
    }
}

/// Crash artifacts are never overwritten over a whole run: each crash a
/// worker observes persists under a path distinct from every other crash's
/// path, within the worker by its growing crash count, and across workers by
/// their identities (`lemma_crash_paths_distinct`).
pub proof fn lemma_run_artifacts_unique(w: WorkerState, sts: Seq<ExecStatus>)
    requires
        w.crashes + sts.len() <= u64::MAX,
    ensures
        forall|i: int, j: int|
            0 <= i < j < artifact_counters(w, sts).len() ==> crash_path_spec(
                w.worker_id,
                artifact_counters(w, sts)[i],
                w.filename@,
            ) != crash_path_spec(w.worker_id, artifact_counters(w, sts)[j], w.filename@),
{
    lemma_artifact_counters_distinct(w, sts);
    assert forall|i: int, j: int|
        0 <= i < j < artifact_counters(w, sts).len() implies crash_path_spec(
        w.worker_id,
        artifact_counters(w, sts)[i],
        w.filename@,
    ) != crash_path_spec(w.worker_id, artifact_counters(w, sts)[j], w.filename@) by {
        crate::paths::lemma_crash_paths_distinct(
            w.worker_id,
            artifact_counters(w, sts)[i],
            w.worker_id,
            artifact_counters(w, sts)[j],
            w.filename@,
        );
    }
}

/// Over `n` executions from the start of a batch, the completed batches are
/// exactly `n` divided by the batch size: the shared execution counter grows
/// by `n` rounded down to the nearest whole batch.
pub proof fn lemma_completed_batches(pos: u64, n: nat)
    requires
        pos < BATCH_SIZE,
    ensures
        completed_batches(pos, n) == (pos + n) / (BATCH_SIZE as int),
    decreases n,
{
    if n == 0 {
        assert((pos as int) / (BATCH_SIZE as int) == 0) by {
            vstd::arithmetic::div_mod::lemma_basic_div(pos as int, BATCH_SIZE as int);
        }
    } else if pos + 1 == BATCH_SIZE {
        lemma_completed_batches(0, (n - 1) as nat);
        assert(1 + (n - 1) / (BATCH_SIZE as int) == (BATCH_SIZE + (n - 1)) / (BATCH_SIZE as int))
            by {
            vstd::arithmetic::div_mod::lemma_div_plus_one((n - 1) as int, BATCH_SIZE as int);
        }
    } else {
        lemma_completed_batches((pos + 1) as u64, (n - 1) as nat);
    }
}

} // verus!
