//! Work division: splitting a total request budget across a fixed pool.
//!
//! Every worker receives the integer quotient of `total / threads`; the
//! remainder is handed out one request at a time to the first
//! `total % threads` workers, so no request is lost or double-counted.

use vstd::prelude::*;

verus! {

/// The quota assigned to worker `i` when `total` requests are divided
/// among `threads` workers: the quotient, plus one extra request for the
/// first `total % threads` workers.
pub open spec fn quota_spec(total: u64, threads: u64, i: int) -> int {
    total as int / threads as int + if i < total as int % threads as int {
        1int
    } else {
        0int
    }
}

/// The sum of the quotas of workers `0 .. n`.
pub open spec fn quota_prefix_sum(total: u64, threads: u64, n: int) -> int
    decreases n,
{
    if n <= 0 {
        0
    } else {
        quota_prefix_sum(total, threads, n - 1) + quota_spec(total, threads, n - 1)
    }
}

/// The sum of a sequence of quotas.
pub open spec fn sum_of(s: Seq<u64>) -> int
    decreases s.len(),
{
    if s.len() == 0 {
        0
    } else {
        sum_of(s.drop_last()) + s.last()
    }
}

/// The first slot (zero-based request index) that worker `i` owns: the sum
/// of all earlier workers' quotas. Worker `i` owns the slots
/// `slot_start(i) .. slot_start(i) + quota_spec(i)`.
pub open spec fn slot_start(total: u64, threads: u64, i: int) -> int {
    quota_prefix_sum(total, threads, i)
}

/// The prefix sums have a closed form: `n` full quotients plus one extra
/// for each remainder slot already handed out.
proof fn lemma_prefix_sum_closed_form(total: u64, threads: u64, n: int)
    requires
        threads >= 1,
        0 <= n <= threads,
    ensures
        quota_prefix_sum(total, threads, n) == n * (total as int / threads as int) + (
        if n <= total as int % threads as int {
            n
        } else {
            total as int % threads as int
        }),
    decreases n,
{
    if n > 0 {
        lemma_prefix_sum_closed_form(total, threads, n - 1);
        assert(n * (total as int / threads as int) == (n - 1) * (total as int / threads as int)
            + total as int / threads as int) by (nonlinear_arith);
        assert(quota_prefix_sum(total, threads, n) == quota_prefix_sum(total, threads, n - 1)
            + quota_spec(total, threads, n - 1));
    } else {
        assert(n == 0);
        assert(n * (total as int / threads as int) == 0) by (nonlinear_arith)
            requires n == 0;
    }
}

/// Work division is a partition of the budget: the per-worker quotas sum
/// to exactly the configured total.
pub proof fn lemma_quotas_partition(total: u64, threads: u64)
    requires
        threads >= 1,
    ensures
        quota_prefix_sum(total, threads, threads as int) == total,
{
    lemma_prefix_sum_closed_form(total, threads, threads as int);
    vstd::arithmetic::div_mod::lemma_fundamental_div_mod(total as int, threads as int);
    assert((total as int % threads as int) < threads as int) by {
        vstd::arithmetic::div_mod::lemma_mod_bound(total as int, threads as int);
    }
}

/// No two workers own overlapping slots: worker `i`'s slots end at or
/// before worker `j`'s begin, for every `i < j`. Together with
/// `lemma_quotas_partition` (the slots of all workers cover exactly
/// `0 .. total`), the division is a partition.
pub proof fn lemma_slots_disjoint(total: u64, threads: u64, i: int, j: int)
    requires
        threads >= 1,
        0 <= i < j < threads,
    ensures
        slot_start(total, threads, i) + quota_spec(total, threads, i) <= slot_start(
            total,
            threads,
            j,
        ),
    decreases j - i,
{
    if j == i + 1 {
    } else {
        lemma_slots_disjoint(total, threads, i, j - 1);
        assert(quota_spec(total, threads, j - 1) >= 0) by {
            vstd::arithmetic::div_mod::lemma_div_pos_is_pos(total as int, threads as int);
        }
    }
}

/// When there are more workers than requests, each of the first `total`
/// workers is assigned exactly one request and every later worker is
/// assigned none (and so performs zero requests and exits at once).
pub proof fn lemma_more_workers_than_requests(total: u64, threads: u64, i: int)
    requires
        threads as int > total as int,
        0 <= i < threads,
    ensures
        quota_spec(total, threads, i) == if i < total as int {
            1int
        } else {
            0int
        },
{
    vstd::arithmetic::div_mod::lemma_basic_div(total as int, threads as int);
    vstd::arithmetic::div_mod::lemma_small_mod(total as nat, threads as nat);
}

/// Compute every worker's quota. The result lists one quota per worker;
/// entry `i` is the quotient plus one extra request if `i` falls below the
/// remainder, and the entries sum to exactly `total`.
pub fn compute_quotas(total: u64, threads: u64) -> (r: Vec<u64>)
    requires
        threads >= 1,
    ensures
        r@.len() == threads,
        forall|i: int| 0 <= i < threads ==> r@[i] == quota_spec(total, threads, i),
        sum_of(r@) == total,
{
    let base: u64 = total / threads;
    let rem: u64 = total % threads;
    let mut r: Vec<u64> = Vec::new();
    let mut i: u64 = 0;
    while i < threads
        invariant
            threads >= 1,
            i <= threads,
            base == total / threads,
            rem == total % threads,
            r@.len() == i,
            forall|j: int| 0 <= j < i ==> r@[j] == quota_spec(total, threads, j),
            sum_of(r@) == quota_prefix_sum(total, threads, i as int),
        decreases threads - i,
    {
        let q: u64 = if i < rem {
            assert(base + 1 <= u64::MAX) by {
                assert(rem >= 1);
                if threads == 1 {
                    vstd::arithmetic::div_mod::lemma_mod_division_less_than_divisor(
                        total as int,
                        1int,
                    );
                }
                assert(total as int / threads as int <= total as int / 2) by {
                    vstd::arithmetic::div_mod::lemma_div_is_ordered_by_denominator(
                        total as int,
                        2,
                        threads as int,
                    );
                }
                assert(total as int / 2 < u64::MAX) by (nonlinear_arith);
            }
            base + 1
        } else {
            base
        };
        let ghost old_r = r@;
        r.push(q);
        proof {
            assert(r@.drop_last() =~= old_r);
            assert(sum_of(r@) == sum_of(old_r) + q);
        }
        i = i + 1;
    }
    proof {
        lemma_quotas_partition(total, threads);
    }
    r
}

} // verus!

