//! The GCRA limiter whose state lives in an atomic, shared between threads.

use crate::acquire_result::AcquireResult;
use crate::clock::{
    duration_as_nanos, duration_from_nanos, duration_total_nanos, instant_duration_since,
    instant_elapsed, instant_now, truncated_nanos,
};
use crate::gcra::{conforms, outcome, sat_mul, shared_next_tat, shared_outcome, update_reported};
use crate::rate_limiter::tick_for;
use std::sync::atomic::{AtomicU64, Ordering};
use std::time::{Duration, Instant};
use vstd::prelude::*;

verus! {

/// Thread-safe GCRA Rate Limiter.
///
/// Uses an atomic variable for lock-free thread safety. The TAT is stored as
/// nanoseconds relative to the baseline, 0 meaning that no request was allowed yet.
#[derive(Debug)]
pub struct SyncRateLimiter {
    /// Minimum time interval between requests (T) in nanoseconds
    tick_ns: u64,
    /// Maximum accumulated burst time (τ) in nanoseconds
    tolerance_ns: u64,
    /// TAT stored as nanoseconds relative to baseline (0 = uninitialized)
    tat_ns: AtomicU64,
    /// Baseline time for calculating relative time
    baseline: Instant,
}

/// The TAT to store for a request at `now`, given the TAT `tat` currently stored
/// (0 when unset), or `None` when the request is denied.
pub fn next_tat(tick_ns: u64, tolerance_ns: u64, tat_ns: u64, now_ns: u64) -> (r: Option<u64>)
    ensures
        r == shared_next_tat(tick_ns, tolerance_ns, tat_ns, now_ns),
{
    if tat_ns == 0 {
        return Some(now_ns.saturating_add(tick_ns));
    }
    let earliest_ns: u64 = tat_ns.saturating_sub(tolerance_ns);
    if now_ns < earliest_ns {
        None
    } else if now_ns > tat_ns {
        Some(now_ns.saturating_add(tick_ns))
    } else {
        Some(tat_ns.saturating_add(tick_ns))
    }
}

/// Calls `AtomicU64::fetch_update` on the limiter's TAT, storing with `AcqRel`
/// and loading with `Acquire`, with [`next_tat`] for the limiter's tick and
/// tolerance and a request at `now_ns` as the update. Trusted, as std documents
/// it: `Ok` carries the value that the update replaced, for which `next_tat` gave
/// `Some`; `Err` carries the value last read, for which it gave `None`. What the
/// atomic holds afterwards is not stated: other threads may change it at any time.
#[verifier::external_body]
fn tat_fetch_update(limiter: &SyncRateLimiter, now_ns: u64) -> (r: Result<u64, u64>)
    ensures
        update_reported(limiter.tick(), limiter.tolerance(), r, now_ns),
{
    limiter.tat_ns.fetch_update(
        Ordering::AcqRel,
        Ordering::Acquire,
        |tat| next_tat(limiter.tick_ns, limiter.tolerance_ns, tat, now_ns),
    )
}

impl SyncRateLimiter {
    /// The minimum interval between requests (T), in nanoseconds.
    pub closed spec fn tick(self) -> u64 {
        self.tick_ns
    }

    /// The burst tolerance (τ), in nanoseconds.
    pub closed spec fn tolerance(self) -> u64 {
        self.tolerance_ns
    }

    /// The instant from which the limiter counts time.
    pub closed spec fn baseline(self) -> Instant {
        self.baseline
    }

    /// Creates a new thread-safe rate limiter.
    ///
    /// * `rate` - Number of requests allowed per time period, must be greater than 0
    /// * `per` - Time period
    /// * `burst` - Maximum number of burst requests allowed
    ///
    /// The tick `per / rate` is truncated to 64 bits.
    pub fn new(rate: u64, per: Duration, burst: u64) -> (r: Self)
        requires
            rate > 0,
        ensures
            r.tick() == tick_for(rate, duration_total_nanos(per)) as u64,
            r.tolerance() == sat_mul(r.tick(), burst),
    {
        let per_ns: u128 = duration_as_nanos(&per);
        let tick_ns: u64 = #[verifier::truncate] ((per_ns / (rate as u128)) as u64);
        let tolerance_ns: u64 = match tick_ns.checked_mul(burst) {
            Some(t) => t,
            None => u64::MAX,
        };
        SyncRateLimiter { tick_ns, tolerance_ns, tat_ns: AtomicU64::new(0), baseline: instant_now() }
    }

    /// Attempts to acquire a permit from the rate limiter, at the current time.
    ///
    /// The clock is read once, at some instant `at`, as the nanoseconds elapsed
    /// from the baseline to `at`. The TAT is then read and, when the request
    /// conforms, advanced in one atomic update (`fetch_update`, which retries while
    /// other threads change the TAT in between), with this limiter's tick and
    /// tolerance. The contract says only this much of the answer: it is the one
    /// the update rule gives at that instant for some TAT, namely the TAT the
    /// update saw; which TAT that was rests on the atomic and on other threads.
    pub fn acquire(&self) -> (r: AcquireResult)
        ensures
            exists|at: Instant, observed: Result<u64, u64>|
                {
                    &&& #[trigger] update_reported(
                        self.tick(),
                        self.tolerance(),
                        observed,
                        truncated_nanos(instant_elapsed(at, self.baseline())),
                    )
                    &&& r@ == shared_outcome(
                        self.tolerance(),
                        observed,
                        truncated_nanos(instant_elapsed(at, self.baseline())),
                    )
                    &&& r.allowed == observed is Ok
                },
            exists|now: u64, tat: u64|
                {
                    &&& r@ == outcome(self.tolerance(), Some(tat), now)
                    &&& r.allowed == conforms(self.tolerance(), tat, now)
                },
    {
        let now_ns: u64 = self.now_ns();
        let observed: Result<u64, u64> = tat_fetch_update(self, now_ns);
        let r: AcquireResult = self.answer(now_ns, observed);
        proof {
            let tat: u64 = match observed {
                Ok(p) => p,
                Err(p) => p,
            };
            assert(r@ == outcome(self.tolerance(), Some(tat), now_ns));
        }
        r
    }

    /// The answer to a request at `now_ns`, given what the atomic update of the TAT
    /// reported: `Ok` when it stored a new TAT, `Err(tat)` when `tat` made it deny
    /// the request, which is then told to retry after `tat - τ - now`.
    pub fn answer(&self, now_ns: u64, observed: Result<u64, u64>) -> (r: AcquireResult)
        ensures
            r@ == shared_outcome(self.tolerance(), observed, now_ns),
            r.allowed == observed is Ok,
    {
        match observed {
            Ok(_) => AcquireResult::allowed(),
            Err(tat_ns) => {
                let earliest_ns: u64 = tat_ns.saturating_sub(self.tolerance_ns);
                let retry_after_ns: u64 = earliest_ns.saturating_sub(now_ns);
                AcquireResult::denied(Some(duration_from_nanos(retry_after_ns)))
            },
        }
    }

    /// Resets the rate limiter state.
    ///
    /// This clears the TAT, allowing the next request to pass immediately unless
    /// another thread acquires first.
    pub fn reset(&self) {
        self.tat_ns.store(0, Ordering::Release);
    }

    /// Gets current time in nanoseconds relative to baseline, truncated to 64 bits:
    /// the nanoseconds elapsed from the baseline to the instant the clock reads.
    fn now_ns(&self) -> (r: u64)
        ensures
            exists|at: Instant| r == #[trigger] truncated_nanos(instant_elapsed(at, self.baseline())),
    {
        let at: Instant = instant_now();
        let elapsed: Duration = instant_duration_since(&at, self.baseline);
        let nanos: u128 = duration_as_nanos(&elapsed);
        let now_ns: u64 = #[verifier::truncate] (nanos as u64);
        assert(now_ns == truncated_nanos(instant_elapsed(at, self.baseline())));
        now_ns
    }
}

impl Clone for SyncRateLimiter {
    /// A limiter with the same tick, tolerance and baseline, and a TAT read from
    /// this one.
    fn clone(&self) -> (r: Self)
        ensures
            r.tick() == self.tick(),
            r.tolerance() == self.tolerance(),
            r.baseline() == self.baseline(),
    {
        SyncRateLimiter {
            tick_ns: self.tick_ns,
            tolerance_ns: self.tolerance_ns,
            tat_ns: AtomicU64::new(self.tat_ns.load(Ordering::Acquire)),
            baseline: self.baseline,
        }
    }
}

} // verus!
