//! The shared outcome statistics: a per-status-code histogram plus
//! distinguished failure counters.
//!
//! The aggregator is the one frequently mutated shared resource of the
//! engine. The surrounding binary guards a single `StatsAggregator` with
//! one exclusive lock and calls `record` / `snapshot` inside the critical
//! section, so every mutation here is a whole, atomic step of the shared
//! state. `total_completed` is never kept as an independent counter: a
//! snapshot derives it from the histogram at read time, so no snapshot can
//! ever show a total that disagrees with the sum of its buckets.
//!
//! A transport failure does not abort a worker: it is recorded under its
//! own failure counter, outside the histogram, and is not part of
//! `total_completed`.

use vstd::prelude::*;

verus! {

/// The ways a single request can fail in transport.
#[derive(Clone, Copy, Debug, PartialEq, Eq, Structural)]
pub enum FailureKind {
    ConnectError,
    Timeout,
    ProtocolError,
}

/// The outcome of one issued request: the response's status code, or the
/// kind of transport failure. Consumed immediately by the aggregator.
#[derive(Clone, Copy, Debug, PartialEq, Eq, Structural)]
pub enum RequestOutcome {
    Success { status_code: u16 },
    Failure { kind: FailureKind },
}

/// The mathematical state of the aggregator: the histogram as a sequence
/// of (status code, count) entries with pairwise distinct codes, and the
/// three failure counters.
pub ghost struct StatsModel {
    pub codes: Seq<(u16, u64)>,
    pub connect_errors: int,
    pub timeouts: int,
    pub protocol_errors: int,
}

/// The sum of the counts of a histogram.
pub open spec fn sum_counts(s: Seq<(u16, u64)>) -> int
    decreases s.len(),
{
    if s.len() == 0 {
        0
    } else {
        sum_counts(s.drop_last()) + s.last().1
    }
}

/// The histogram holds at most one entry per status code.
pub open spec fn keys_unique(s: Seq<(u16, u64)>) -> bool {
    forall|i: int, j: int| 0 <= i < j < s.len() ==> s[i].0 != s[j].0
}

/// Whether some entry of the histogram carries `code`.
pub open spec fn has_code(s: Seq<(u16, u64)>, code: u16) -> bool {
    exists|i: int| 0 <= i < s.len() && s[i].0 == code
}

/// The index of the entry carrying `code` (meaningful when `has_code`
/// holds and the keys are unique).
pub open spec fn code_index(s: Seq<(u16, u64)>, code: u16) -> int {
    choose|i: int| 0 <= i < s.len() && s[i].0 == code
}

/// The count recorded for `code`: the entry's count, or zero when no
/// entry carries `code`.
pub open spec fn count_of(s: Seq<(u16, u64)>, code: u16) -> int {
    if has_code(s, code) {
        s[code_index(s, code)].1 as int
    } else {
        0
    }
}

/// One more completion under `code`: the entry for `code` is incremented,
/// or a fresh entry with count one is appended.
pub open spec fn bump_code(s: Seq<(u16, u64)>, code: u16) -> Seq<(u16, u64)> {
    if has_code(s, code) {
        s.update(code_index(s, code), (code, (s[code_index(s, code)].1 + 1) as u64))
    } else {
        s.push((code, 1u64))
    }
}

/// A model is well formed when its codes are unique and its total still
/// fits the counter width.
pub open spec fn model_wf(m: StatsModel) -> bool {
    &&& keys_unique(m.codes)
    &&& sum_counts(m.codes) <= u64::MAX
}

/// Whether one more `outcome` can be recorded without overflowing the
/// counter it lands in.
pub open spec fn can_record(m: StatsModel, outcome: RequestOutcome) -> bool {
    match outcome {
        RequestOutcome::Success { status_code } => sum_counts(m.codes) < u64::MAX,
        RequestOutcome::Failure { kind } => match kind {
            FailureKind::ConnectError => m.connect_errors < u64::MAX,
            FailureKind::Timeout => m.timeouts < u64::MAX,
            FailureKind::ProtocolError => m.protocol_errors < u64::MAX,
        },
    }
}

/// The effect of recording one outcome: a success increments exactly one
/// status bucket, a failure increments exactly one failure counter.
pub open spec fn record_model(m: StatsModel, outcome: RequestOutcome) -> StatsModel {
    match outcome {
        RequestOutcome::Success { status_code } => StatsModel {
            codes: bump_code(m.codes, status_code),
            connect_errors: m.connect_errors,
            timeouts: m.timeouts,
            protocol_errors: m.protocol_errors,
        },
        RequestOutcome::Failure { kind } => match kind {
            FailureKind::ConnectError => StatsModel {
                codes: m.codes,
                connect_errors: m.connect_errors + 1,
                timeouts: m.timeouts,
                protocol_errors: m.protocol_errors,
            },
            FailureKind::Timeout => StatsModel {
                codes: m.codes,
                connect_errors: m.connect_errors,
                timeouts: m.timeouts + 1,
                protocol_errors: m.protocol_errors,
            },
            FailureKind::ProtocolError => StatsModel {
                codes: m.codes,
                connect_errors: m.connect_errors,
                timeouts: m.timeouts,
                protocol_errors: m.protocol_errors + 1,
            },
        },
    }
}

/// The aggregator before any outcome was recorded: no buckets, no
/// failures.
pub open spec fn empty_model() -> StatsModel {
    StatsModel { codes: Seq::empty(), connect_errors: 0, timeouts: 0, protocol_errors: 0 }
}

/// Every count in a histogram is nonnegative, so the sum is too.
pub proof fn lemma_sum_counts_nonneg(s: Seq<(u16, u64)>)
    ensures
        sum_counts(s) >= 0,
    decreases s.len(),
{
    if s.len() > 0 {
        lemma_sum_counts_nonneg(s.drop_last());
    }
}

/// Each single entry's count is bounded by the whole sum.
pub proof fn lemma_entry_le_sum(s: Seq<(u16, u64)>, i: int)
    requires
        0 <= i < s.len(),
    ensures
        s[i].1 <= sum_counts(s),
    decreases s.len(),
{
    if i == s.len() - 1 {
        lemma_sum_counts_nonneg(s.drop_last());
    } else {
        lemma_entry_le_sum(s.drop_last(), i);
    }
}

/// Replacing entry `i` changes the sum by the difference of the counts.
proof fn lemma_sum_counts_update(s: Seq<(u16, u64)>, i: int, e: (u16, u64))
    requires
        0 <= i < s.len(),
    ensures
        sum_counts(s.update(i, e)) == sum_counts(s) - s[i].1 + e.1,
    decreases s.len(),
{
    if i == s.len() - 1 {
        assert(s.update(i, e).drop_last() =~= s.drop_last());
    } else {
        assert(s.update(i, e).drop_last() =~= s.drop_last().update(i, e));
        lemma_sum_counts_update(s.drop_last(), i, e);
    }
}

/// Appending an entry adds its count to the sum.
proof fn lemma_sum_counts_push(s: Seq<(u16, u64)>, e: (u16, u64))
    ensures
        sum_counts(s.push(e)) == sum_counts(s) + e.1,
{
    assert(s.push(e).drop_last() =~= s);
}

/// Recording one completion adds exactly one to the histogram's sum and
/// keeps the codes unique: every completed request lands in exactly one
/// status bucket.
pub proof fn lemma_bump_code(s: Seq<(u16, u64)>, code: u16)
    requires
        keys_unique(s),
        sum_counts(s) < u64::MAX,
    ensures
        sum_counts(bump_code(s, code)) == sum_counts(s) + 1,
        keys_unique(bump_code(s, code)),
        count_of(bump_code(s, code), code) == count_of(s, code) + 1,
        forall|c: u16| c != code ==> count_of(bump_code(s, code), c) == count_of(s, c),
{
    let b = bump_code(s, code);
    if has_code(s, code) {
        let i = code_index(s, code);
        assert(0 <= i < s.len() && s[i].0 == code);
        lemma_entry_le_sum(s, i);
        lemma_sum_counts_update(s, i, (code, (s[i].1 + 1) as u64));
        assert(keys_unique(b));
        assert(b[i].0 == code);
        assert(has_code(b, code));
        lemma_code_index_unique(b, code, i);
        assert forall|c: u16| c != code implies count_of(b, c) == count_of(s, c) by {
            lemma_count_of_unaffected(s, b, c);
        }
    } else {
        lemma_sum_counts_push(s, (code, 1u64));
        assert(keys_unique(b)) by {
            assert(forall|j: int| 0 <= j < s.len() ==> s[j].0 != code);
        }
        assert(b[s.len() as int].0 == code);
        assert(has_code(b, code));
        lemma_code_index_unique(b, code, s.len() as int);
        assert(count_of(s, code) == 0);
        assert forall|c: u16| c != code implies count_of(b, c) == count_of(s, c) by {
            lemma_count_of_unaffected(s, b, c);
        }
    }
}

/// With unique keys, any index carrying `code` is the chosen one.
proof fn lemma_code_index_unique(s: Seq<(u16, u64)>, code: u16, i: int)
    requires
        keys_unique(s),
        0 <= i < s.len(),
        s[i].0 == code,
    ensures
        code_index(s, code) == i,
{
    assert(has_code(s, code));
    let j = code_index(s, code);
    assert(0 <= j < s.len() && s[j].0 == code);
    if i != j {
        if i < j {
            assert(s[i].0 != s[j].0);
        } else {
            assert(s[j].0 != s[i].0);
        }
    }
}

/// Two histograms that agree on which entries carry `c`, entry for entry,
/// record the same count for `c`. Used for codes a bump did not touch.
proof fn lemma_count_of_unaffected(s: Seq<(u16, u64)>, b: Seq<(u16, u64)>, c: u16)
    requires
        keys_unique(s),
        keys_unique(b),
        forall|i: int|
            0 <= i < s.len() ==> (#[trigger] s[i]).0 == c ==> i < b.len() && b[i] == s[i],
        forall|i: int|
            0 <= i < b.len() ==> (#[trigger] b[i]).0 == c ==> i < s.len() && s[i] == b[i],
    ensures
        count_of(b, c) == count_of(s, c),
{
    if has_code(s, c) {
        let i = code_index(s, c);
        assert(0 <= i < s.len() && s[i].0 == c);
        assert(b[i] == s[i]);
        assert(has_code(b, c));
        lemma_code_index_unique(b, c, i);
    } else if has_code(b, c) {
        let i = code_index(b, c);
        assert(0 <= i < b.len() && b[i].0 == c);
        assert(s[i] == b[i]);
        assert(has_code(s, c));
    }
}

/// A consistent snapshot of the statistics at one point in time. The
/// `total_completed` field is derived from the histogram when the snapshot
/// is taken, never maintained separately.
pub struct StatsSnapshot {
    pub total_completed: u64,
    pub codes: Vec<(u16, u64)>,
    pub connect_errors: u64,
    pub timeouts: u64,
    pub protocol_errors: u64,
}

/// A snapshot is internally consistent when its total equals the sum of
/// its buckets.
pub open spec fn snapshot_consistent(s: StatsSnapshot) -> bool {
    s.total_completed == sum_counts(s.codes@)
}

/// The shared outcome statistics. All verified mutation goes through
/// `record`, which keeps the codes unique and the total within the
/// counter width.
pub struct StatsAggregator {
    codes: Vec<(u16, u64)>,
    connect_errors: u64,
    timeouts: u64,
    protocol_errors: u64,
}

impl View for StatsAggregator {
    type V = StatsModel;

    closed spec fn view(&self) -> StatsModel {
        StatsModel {
            codes: self.codes@,
            connect_errors: self.connect_errors as int,
            timeouts: self.timeouts as int,
            protocol_errors: self.protocol_errors as int,
        }
    }
}

impl StatsAggregator {
    /// The aggregator's invariant, stated over its model.
    pub open spec fn wf(&self) -> bool {
        model_wf(self@)
    }

    /// A fresh aggregator: nothing recorded yet.
    pub fn new() -> (r: StatsAggregator)
        ensures
            r@ == empty_model(),
            r.wf(),
    {
        let r = StatsAggregator { codes: Vec::new(), connect_errors: 0, timeouts: 0, protocol_errors: 0 };
        proof {
            assert(r@.codes =~= empty_model().codes);
            assert(r@ == empty_model());
        }
        r
    }

    /// Record one outcome: a success increments the bucket of its status
    /// code (appending the bucket on first sight), a failure increments
    /// the counter of its kind. Exactly one counter changes.
    pub fn record(&mut self, outcome: RequestOutcome)
        requires
            old(self).wf(),
            can_record(old(self)@, outcome),
        ensures
            final(self)@ == record_model(old(self)@, outcome),
            final(self).wf(),
    {
        match outcome {
            RequestOutcome::Success { status_code } => {
                proof {
                    lemma_bump_code(self@.codes, status_code);
                }
                self.bump(status_code);
            },
            RequestOutcome::Failure { kind } => match kind {
                FailureKind::ConnectError => {
                    self.connect_errors = self.connect_errors + 1;
                },
                FailureKind::Timeout => {
                    self.timeouts = self.timeouts + 1;
                },
                FailureKind::ProtocolError => {
                    self.protocol_errors = self.protocol_errors + 1;
                },
            },
        }
    }

    /// Increment the bucket for `code`, appending it on first sight.
    fn bump(&mut self, code: u16)
        requires
            keys_unique(old(self)@.codes),
            sum_counts(old(self)@.codes) < u64::MAX,
        ensures
            final(self)@.codes == bump_code(old(self)@.codes, code),
            final(self)@.connect_errors == old(self)@.connect_errors,
            final(self)@.timeouts == old(self)@.timeouts,
            final(self)@.protocol_errors == old(self)@.protocol_errors,
    {
        let n: usize = self.codes.len();
        let mut i: usize = 0;
        while i < n
            invariant
                n == self.codes.len(),
                i <= n,
                keys_unique(self.codes@),
                sum_counts(self.codes@) < u64::MAX,
                forall|j: int| 0 <= j < i ==> self.codes@[j].0 != code,
                self.codes@ == old(self)@.codes,
                self.connect_errors == old(self).connect_errors,
                self.timeouts == old(self).timeouts,
                self.protocol_errors == old(self).protocol_errors,
            decreases n - i,
        {
            let entry: (u16, u64) = self.codes[i];
            if entry.0 == code {
                proof {
                    lemma_code_index_unique(self.codes@, code, i as int);
                    lemma_entry_le_sum(self.codes@, i as int);
                }
                self.codes[i] = (code, entry.1 + 1);
                return ;
            }
            i = i + 1;
        }
        proof {
            assert(!has_code(self.codes@, code));
        }
        self.codes.push((code, 1));
    }

    /// The total of completed requests so far, derived from the histogram.
    pub fn total_completed(&self) -> (r: u64)
        requires
            self.wf(),
        ensures
            r == sum_counts(self@.codes),
    {
        let n: usize = self.codes.len();
        let mut total: u64 = 0;
        let mut i: usize = 0;
        proof {
            lemma_sum_counts_nonneg(self@.codes);
        }
        while i < n
            invariant
                n == self.codes.len(),
                i <= n,
                sum_counts(self@.codes) <= u64::MAX,
                total == sum_counts(self.codes@.subrange(0, i as int)),
            decreases n - i,
        {
            let entry: (u16, u64) = self.codes[i];
            proof {
                assert(self.codes@.subrange(0, i as int + 1).drop_last() =~= self.codes@.subrange(
                    0,
                    i as int,
                ));
                assert(self.codes@.subrange(0, i as int + 1).last() == entry);
                lemma_sum_subrange_le(self.codes@, i as int + 1);
            }
            total = total + entry.1;
            i = i + 1;
        }
        proof {
            assert(self.codes@.subrange(0, n as int) =~= self.codes@);
        }
        total
    }

    /// Whether one more `outcome` fits without overflowing a counter, so
    /// that `record` may be called.
    pub fn can_accept(&self, outcome: RequestOutcome) -> (r: bool)
        requires
            self.wf(),
        ensures
            r == can_record(self@, outcome),
    {
        match outcome {
            RequestOutcome::Success { status_code } => self.total_completed() < u64::MAX,
            RequestOutcome::Failure { kind } => match kind {
                FailureKind::ConnectError => self.connect_errors < u64::MAX,
                FailureKind::Timeout => self.timeouts < u64::MAX,
                FailureKind::ProtocolError => self.protocol_errors < u64::MAX,
            },
        }
    }

    /// Take a consistent snapshot: the histogram and failure counters as
    /// they stand, with the total derived as the sum of the buckets.
    pub fn snapshot(&self) -> (r: StatsSnapshot)
        requires
            self.wf(),
        ensures
            r.codes@ == self@.codes,
            r.total_completed == sum_counts(self@.codes),
            snapshot_consistent(r),
            r.connect_errors == self@.connect_errors,
            r.timeouts == self@.timeouts,
            r.protocol_errors == self@.protocol_errors,
    {
        let n: usize = self.codes.len();
        let mut codes: Vec<(u16, u64)> = Vec::new();
        let mut total: u64 = 0;
        let mut i: usize = 0;
        proof {
            lemma_sum_counts_nonneg(self@.codes);
        }
        while i < n
            invariant
                n == self.codes.len(),
                i <= n,
                sum_counts(self@.codes) <= u64::MAX,
                codes@ =~= self.codes@.subrange(0, i as int),
                total == sum_counts(self.codes@.subrange(0, i as int)),
            decreases n - i,
        {
            let entry: (u16, u64) = self.codes[i];
            proof {
                assert(self.codes@.subrange(0, i as int + 1).drop_last() =~= self.codes@.subrange(
                    0,
                    i as int,
                ));
                assert(self.codes@.subrange(0, i as int + 1).last() == entry);
                lemma_sum_subrange_le(self.codes@, i as int + 1);
            }
            total = total + entry.1;
            codes.push(entry);
            i = i + 1;
        }
        proof {
            assert(self.codes@.subrange(0, n as int) =~= self.codes@);
        }
        StatsSnapshot {
            total_completed: total,
            codes,
            connect_errors: self.connect_errors,
            timeouts: self.timeouts,
            protocol_errors: self.protocol_errors,
        }
    }
}

/// The sum over a prefix of the histogram never exceeds the sum over the
/// whole histogram.
proof fn lemma_sum_subrange_le(s: Seq<(u16, u64)>, n: int)
    requires
        0 <= n <= s.len(),
    ensures
        sum_counts(s.subrange(0, n)) <= sum_counts(s),
    decreases s.len() - n,
{
    if n == s.len() {
        assert(s.subrange(0, n) =~= s);
    } else {
        assert(s.subrange(0, n + 1).drop_last() =~= s.subrange(0, n));
        lemma_sum_subrange_le(s, n + 1);
    }
}

/// Folding a whole run of outcomes into the statistics, one `record` at a
/// time, oldest first.
pub open spec fn record_all_model(m: StatsModel, outs: Seq<RequestOutcome>) -> StatsModel
    decreases outs.len(),
{
    if outs.len() == 0 {
        m
    } else {
        record_model(record_all_model(m, outs.drop_last()), outs.last())
    }
}

/// How many of a run's outcomes were successes.
pub open spec fn successes_in(outs: Seq<RequestOutcome>) -> int
    decreases outs.len(),
{
    if outs.len() == 0 {
        0
    } else {
        successes_in(outs.drop_last()) + if outs.last() is Success {
            1int
        } else {
            0int
        }
    }
}

/// No run records more successes than it has outcomes.
pub proof fn lemma_successes_le_len(outs: Seq<RequestOutcome>)
    ensures
        0 <= successes_in(outs) <= outs.len(),
    decreases outs.len(),
{
    if outs.len() > 0 {
        lemma_successes_le_len(outs.drop_last());
    }
}

/// Recording a run of outcomes adds exactly one completion per success to
/// the histogram's total, leaves the failures in their own counters, and
/// preserves the aggregator's invariant: no completion is lost and none is
/// counted twice, whatever the interleaving that produced the run.
pub proof fn lemma_record_all_total(m: StatsModel, outs: Seq<RequestOutcome>)
    requires
        model_wf(m),
        sum_counts(m.codes) + successes_in(outs) <= u64::MAX,
    ensures
        model_wf(record_all_model(m, outs)),
        sum_counts(record_all_model(m, outs).codes) == sum_counts(m.codes) + successes_in(outs),
    decreases outs.len(),
{
    if outs.len() > 0 {
        lemma_successes_le_len(outs.drop_last());
        lemma_successes_le_len(outs);
        lemma_record_all_total(m, outs.drop_last());
        let before = record_all_model(m, outs.drop_last());
        match outs.last() {
            RequestOutcome::Success { status_code } => {
                lemma_bump_code(before.codes, status_code);
            },
            RequestOutcome::Failure { kind } => {},
        }
    }
}

/// A run cut short of the configured total — fewer outcomes than
/// configured requests, as after a mid-run stop — can never show more
/// completions than it had outcomes: a stopped run's snapshot stays at or
/// below the configured total and remains consistent.
pub proof fn lemma_partial_run_bounded(outs: Seq<RequestOutcome>, total_requests: u64)
    requires
        outs.len() <= total_requests,
    ensures
        sum_counts(record_all_model(empty_model(), outs).codes) <= outs.len(),
        model_wf(record_all_model(empty_model(), outs)),
{
    lemma_successes_le_len(outs);
    lemma_record_all_total(empty_model(), outs);
}

/// After a full run with no stop and no transport failures — one success
/// per configured request — the final snapshot's total equals the
/// configured total exactly.
pub proof fn lemma_no_failure_full_run(outs: Seq<RequestOutcome>, total_requests: u64)
    requires
        outs.len() == total_requests,
        forall|i: int| 0 <= i < outs.len() ==> outs[i] is Success,
    ensures
        sum_counts(record_all_model(empty_model(), outs).codes) == total_requests,
        model_wf(record_all_model(empty_model(), outs)),
{
    lemma_all_success_count(outs);
    lemma_record_all_total(empty_model(), outs);
}

/// In a run of nothing but successes, the success count is the length.
proof fn lemma_all_success_count(outs: Seq<RequestOutcome>)
    requires
        forall|i: int| 0 <= i < outs.len() ==> outs[i] is Success,
    ensures
        successes_in(outs) == outs.len(),
    decreases outs.len(),
{
    if outs.len() > 0 {
        lemma_all_success_count(outs.drop_last());
    }
}

} // verus!
