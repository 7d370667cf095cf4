//! One worker of the pool: a sequential loop that issues requests until
//! its quota is exhausted or the stop signal is observed.
//!
//! The worker's decisions live here, verified; the surrounding binary runs
//! the loop. Each round it asks `next_action`, and on `SendRequest`
//! performs one HTTP call outside this crate and hands the outcome back
//! through `on_outcome`. Workers do not coordinate with each other: each
//! holds its own `Worker` value and shares only the aggregator and the
//! stop flag. A failed attempt is recorded and consumes the attempt's
//! quota slot; it never aborts the worker.

use crate::quota::quota_prefix_sum;
use crate::quota::quota_spec;
use crate::stats::StatsAggregator;
use crate::stats::RequestOutcome;
use crate::stats::can_record;
use crate::stats::empty_model;
use crate::stats::lemma_no_failure_full_run;
use crate::stats::record_all_model;
use crate::stats::record_model;
use crate::stats::sum_counts;
use vstd::prelude::*;

verus! {

/// What a worker does next: issue one more request, or terminate.
#[derive(Clone, Copy, Debug, PartialEq, Eq, Structural)]
pub enum WorkerAction {
    SendRequest,
    Finish,
}

/// A worker's loop state: its fixed quota and how many requests it has
/// attempted so far (completed or failed — each attempt consumes one
/// quota slot).
pub struct Worker {
    pub quota: u64,
    pub attempted: u64,
}

/// The worker's decision rule: terminate as soon as a stop is observed or
/// the quota is exhausted, otherwise issue one more request.
pub open spec fn next_action_spec(w: Worker, stop_observed: bool) -> WorkerAction {
    if stop_observed || w.attempted >= w.quota {
        WorkerAction::Finish
    } else {
        WorkerAction::SendRequest
    }
}

impl Worker {
    /// A worker never attempts more than its quota.
    pub open spec fn wf(&self) -> bool {
        self.attempted <= self.quota
    }

    /// A fresh worker with its assigned quota and nothing attempted.
    pub fn new(quota: u64) -> (r: Worker)
        ensures
            r.quota == quota,
            r.attempted == 0,
            r.wf(),
    {
        Worker { quota, attempted: 0 }
    }

    /// Decide the next step. Once a stop is observed the answer is
    /// `Finish` — the worker never starts a new request after its next
    /// check — and a worker whose quota is zero finishes without ever
    /// issuing a request.
    pub fn next_action(&self, stop_observed: bool) -> (r: WorkerAction)
        ensures
            r == next_action_spec(*self, stop_observed),
            stop_observed ==> r is Finish,
            self.quota == 0 ==> r is Finish,
    {
        if stop_observed || self.attempted >= self.quota {
            WorkerAction::Finish
        } else {
            WorkerAction::SendRequest
        }
    }

    /// Hand back the outcome of the one request the worker just issued:
    /// the outcome is recorded in the shared statistics and one quota slot
    /// is consumed. Nothing else of either state changes.
    pub fn on_outcome(&mut self, agg: &mut StatsAggregator, outcome: RequestOutcome)
        requires
            old(self).wf(),
            old(self).attempted < old(self).quota,
            old(agg).wf(),
            can_record(old(agg)@, outcome),
        ensures
            final(self).quota == old(self).quota,
            final(self).attempted == old(self).attempted + 1,
            final(self).wf(),
            final(agg)@ == record_model(old(agg)@, outcome),
            final(agg).wf(),
    {
        agg.record(outcome);
        self.attempted = self.attempted + 1;
    }
}

/// Liveness of cancellation, at the decision level: whatever state a
/// worker is in, its very next check after a stop is observed decides
/// `Finish`. One polling interval bounds a worker's exit (an in-flight
/// request is allowed to complete first).
pub proof fn lemma_stop_halts_worker(w: Worker)
    ensures
        next_action_spec(w, true) is Finish,
{
}

/// A worker that finishes without having observed a stop has exhausted
/// its quota exactly: it attempted neither fewer nor more requests.
pub proof fn lemma_natural_finish_means_quota_met(w: Worker)
    requires
        w.wf(),
        next_action_spec(w, false) is Finish,
    ensures
        w.attempted == w.quota,
{
}

/// A worker with a zero quota finishes immediately: it never issues a
/// request, stop signal or not.
pub proof fn lemma_zero_quota_idle(w: Worker, stop_observed: bool)
    requires
        w.quota == 0,
        w.wf(),
    ensures
        next_action_spec(w, stop_observed) is Finish,
{
}

/// Every outcome of a worker's run was a success.
pub open spec fn all_success(outs: Seq<RequestOutcome>) -> bool {
    forall|i: int| 0 <= i < outs.len() ==> outs[i] is Success
}

/// The outcomes of a whole pool's run, one sequence per worker, joined in
/// worker order. Workers record interleaved in reality; the aggregator's
/// totals do not depend on the order, so any one order stands for all.
pub open spec fn concat_outcomes(outss: Seq<Seq<RequestOutcome>>) -> Seq<RequestOutcome>
    decreases outss.len(),
{
    if outss.len() == 0 {
        Seq::empty()
    } else {
        concat_outcomes(outss.drop_last()) + outss.last()
    }
}

/// Joining per-worker runs that are all successes gives a run that is all
/// successes, one outcome per issued request.
proof fn lemma_concat_all_success(outss: Seq<Seq<RequestOutcome>>)
    requires
        forall|i: int| 0 <= i < outss.len() ==> all_success(#[trigger] outss[i]),
    ensures
        all_success(concat_outcomes(outss)),
    decreases outss.len(),
{
    if outss.len() > 0 {
        lemma_concat_all_success(outss.drop_last());
        let rest = concat_outcomes(outss.drop_last());
        let last = outss.last();
        assert forall|i: int| 0 <= i < concat_outcomes(outss).len() implies concat_outcomes(
            outss,
        )[i] is Success by {
            if i < rest.len() {
                assert(concat_outcomes(outss)[i] == rest[i]);
            } else {
                assert(concat_outcomes(outss)[i] == last[i - rest.len()]);
            }
        }
    }
}

/// A pool whose workers each ran exactly their quota joins to one outcome
/// per configured request.
proof fn lemma_concat_len_is_total(outss: Seq<Seq<RequestOutcome>>, total: u64, threads: u64)
    requires
        forall|i: int| 0 <= i < outss.len() ==> (#[trigger] outss[i]).len() == quota_spec(
            total,
            threads,
            i,
        ),
    ensures
        concat_outcomes(outss).len() == quota_prefix_sum(total, threads, outss.len() as int),
    decreases outss.len(),
{
    if outss.len() > 0 {
        lemma_concat_len_is_total(outss.drop_last(), total, threads);
    }
}

/// Each of the first `n` quotas is nonnegative, so the prefix sums of the
/// division only grow.
proof fn lemma_prefix_sum_monotone(total: u64, threads: u64, a: int, b: int)
    requires
        threads >= 1,
        0 <= a <= b,
    ensures
        quota_prefix_sum(total, threads, a) <= quota_prefix_sum(total, threads, b),
    decreases b - a,
{
    if a < b {
        lemma_prefix_sum_monotone(total, threads, a, b - 1);
        vstd::arithmetic::div_mod::lemma_div_pos_is_pos(total as int, threads as int);
    }
}

/// Workers that stay within their quotas join to at most the first
/// `outss.len()` quotas' worth of outcomes.
proof fn lemma_concat_len_le(outss: Seq<Seq<RequestOutcome>>, total: u64, threads: u64)
    requires
        threads >= 1,
        forall|i: int| 0 <= i < outss.len() ==> (#[trigger] outss[i]).len() <= quota_spec(
            total,
            threads,
            i,
        ),
    ensures
        concat_outcomes(outss).len() <= quota_prefix_sum(total, threads, outss.len() as int),
    decreases outss.len(),
{
    if outss.len() > 0 {
        lemma_concat_len_le(outss.drop_last(), total, threads);
    }
}

/// No pool ever completes more than the configured total: however a run
/// was cut short — a stop observed early, transport failures, workers
/// that never started — as long as no worker issues beyond its quota, the
/// recorded completions stay at or below `total`.
pub proof fn lemma_pool_never_exceeds_total(
    outss: Seq<Seq<RequestOutcome>>,
    total: u64,
    threads: u64,
)
    requires
        threads >= 1,
        outss.len() <= threads,
        forall|i: int| 0 <= i < outss.len() ==> (#[trigger] outss[i]).len() <= quota_spec(
            total,
            threads,
            i,
        ),
    ensures
        sum_counts(record_all_model(empty_model(), concat_outcomes(outss)).codes) <= total,
{
    lemma_concat_len_le(outss, total, threads);
    lemma_prefix_sum_monotone(total, threads, outss.len() as int, threads as int);
    crate::quota::lemma_quotas_partition(total, threads);
    let outs = concat_outcomes(outss);
    crate::stats::lemma_successes_le_len(outs);
    crate::stats::lemma_record_all_total(empty_model(), outs);
}

/// The full-run law, composed over the whole pool: with one worker per
/// quota of the division of `total` over `threads` workers, each issuing
/// exactly its quota with no stop and no transport failure, recording
/// everything the pool did leaves the histogram summing to exactly
/// `total` — the final snapshot reports `total_completed == total`.
pub proof fn lemma_pool_completes_total(outss: Seq<Seq<RequestOutcome>>, total: u64, threads: u64)
    requires
        threads >= 1,
        outss.len() == threads,
        forall|i: int| 0 <= i < outss.len() ==> (#[trigger] outss[i]).len() == quota_spec(
            total,
            threads,
            i,
        ),
        forall|i: int| 0 <= i < outss.len() ==> all_success(#[trigger] outss[i]),
    ensures
        sum_counts(record_all_model(empty_model(), concat_outcomes(outss)).codes) == total,
{
    lemma_concat_all_success(outss);
    lemma_concat_len_is_total(outss, total, threads);
    crate::quota::lemma_quotas_partition(total, threads);
    lemma_no_failure_full_run(concat_outcomes(outss), total);
}

} // verus!
