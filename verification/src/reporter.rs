//! The live rate reporter: a periodic loop that reads the aggregator's
//! total and prints throughput once a second.
//!
//! The arithmetic and the exit decision live here, verified; the
//! surrounding binary sleeps on the timer, reads the clock and the shared
//! total, calls `tick`, and prints the returned sample. A `None` from
//! `tick` tells it the stop signal was observed: the loop exits at its
//! next tick, so the polling interval bounds the reporter's exit latency.

use vstd::prelude::*;

verus! {

/// Cumulative throughput in requests per second, computed from the total
/// completed so far and the elapsed run time in milliseconds, saturating
/// at the counter width.
pub open spec fn rate_per_sec_spec(total: u64, elapsed_millis: u64) -> int {
    let q = (total as int * 1000) / (elapsed_millis as int);
    if q > u64::MAX {
        u64::MAX as int
    } else {
        q
    }
}

/// One line of the live report: the totals at this tick and the rates
/// derived from them.
pub struct RateSample {
    /// Requests completed since the run started.
    pub total_completed: u64,
    /// Requests completed since the previous tick: the basis of the
    /// instantaneous rate over the last polling interval.
    pub completed_since_last: u64,
    /// Elapsed run time, in milliseconds, as handed in by the caller.
    pub elapsed_millis: u64,
    /// Cumulative throughput since the run started, requests per second.
    pub cumulative_rate_per_sec: u64,
}

/// The sample a tick produces from the previous tick's total, the current
/// total and the elapsed time.
pub open spec fn sample_spec(last_total: u64, total: u64, elapsed_millis: u64) -> RateSample {
    RateSample {
        total_completed: total,
        completed_since_last: (total - last_total) as u64,
        elapsed_millis,
        cumulative_rate_per_sec: rate_per_sec_spec(total, elapsed_millis) as u64,
    }
}

/// The reporter's state between ticks: the total it reported last.
pub struct RateReporter {
    pub last_total: u64,
}

impl RateReporter {
    /// A fresh reporter: nothing reported yet.
    pub fn new() -> (r: RateReporter)
        ensures
            r.last_total == 0,
    {
        RateReporter { last_total: 0 }
    }

    /// One tick of the reporting loop. Observing the stop signal yields
    /// `None` — the reporter exits without another report and its state
    /// is untouched. Otherwise the tick yields the sample to print and
    /// remembers the total for the next instantaneous rate.
    pub fn tick(&mut self, stop_observed: bool, total_completed: u64, elapsed_millis: u64) -> (r:
        Option<RateSample>)
        requires
            elapsed_millis >= 1,
            old(self).last_total <= total_completed,
        ensures
            r == if stop_observed {
                Option::<RateSample>::None
            } else {
                Some(sample_spec(old(self).last_total, total_completed, elapsed_millis))
            },
            stop_observed ==> *final(self) == *old(self),
            !stop_observed ==> final(self).last_total == total_completed,
    {
        if stop_observed {
            return None;
        }
        let delta: u64 = total_completed - self.last_total;
        let rate: u64 = rate_per_sec(total_completed, elapsed_millis);
        self.last_total = total_completed;
        Some(
            RateSample {
                total_completed,
                completed_since_last: delta,
                elapsed_millis,
                cumulative_rate_per_sec: rate,
            },
        )
    }
}

/// Compute the cumulative rate, widening so the multiplication cannot
/// overflow and saturating on the way back down.
fn rate_per_sec(total: u64, elapsed_millis: u64) -> (r: u64)
    requires
        elapsed_millis >= 1,
    ensures
        r == rate_per_sec_spec(total, elapsed_millis),
{
    let wide: u128 = (total as u128) * 1000;
    let q: u128 = wide / (elapsed_millis as u128);
    if q > u64::MAX as u128 {
        u64::MAX
    } else {
        q as u64
    }
}

} // verus!
