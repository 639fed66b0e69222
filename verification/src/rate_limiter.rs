//! The single-owner GCRA limiter.

use crate::acquire_result::AcquireResult;
use crate::clock::{
    duration_as_nanos, duration_from_nanos, duration_total_nanos, instant_duration_since,
    instant_elapsed, instant_now, truncated_nanos,
};
use crate::gcra::{admits, outcome, sat_mul, tat_after};
use std::time::{Duration, Instant};
use vstd::prelude::*;

verus! {

/// GCRA Rate Limiter
///
/// Implements precise rate control using the Generic Cell Rate Algorithm.
#[derive(Debug)]
pub struct RateLimiter {
    /// Minimum time interval between requests (T) in nanoseconds
    tick_ns: u64,
    /// Maximum accumulated burst time (τ) in nanoseconds
    tolerance_ns: u64,
    /// Theoretical arrival time of the next request (TAT) in nanoseconds since first request
    tat_ns: Option<u64>,
    /// Baseline time for calculating relative time
    baseline: Instant,
}

/// The tick of a limiter for `rate` requests per `per_ns` nanoseconds.
pub open spec fn tick_for(rate: u64, per_ns: u128) -> int {
    per_ns as int / rate as int
}

impl RateLimiter {
    /// The minimum interval between requests (T), in nanoseconds.
    pub closed spec fn tick(self) -> u64 {
        self.tick_ns
    }

    /// The burst tolerance (τ), in nanoseconds.
    pub closed spec fn tolerance(self) -> u64 {
        self.tolerance_ns
    }

    /// The theoretical arrival time of the next request; `None` before the first one.
    pub closed spec fn tat(self) -> Option<u64> {
        self.tat_ns
    }

    /// The instant from which the limiter counts time.
    pub closed spec fn baseline(self) -> Instant {
        self.baseline
    }

    /// Creates a new rate limiter.
    ///
    /// * `rate` - Number of requests allowed per time period, must be greater than 0
    /// * `per` - Time period
    /// * `burst` - Maximum number of burst requests allowed
    ///
    /// The tick `per / rate` must fit in a `u64` number of nanoseconds.
    pub fn new(rate: u64, per: Duration, burst: u64) -> (r: Self)
        requires
            rate > 0,
            tick_for(rate, duration_total_nanos(per)) <= u64::MAX,
        ensures
            r.tick() == tick_for(rate, duration_total_nanos(per)),
            r.tolerance() == sat_mul(r.tick(), burst),
            r.tat() is None,
    {
        let per_ns: u128 = duration_as_nanos(&per);
        let tick_wide: u128 = per_ns / (rate as u128);
        let tick_ns: u64 = tick_wide as u64;
        let tolerance_ns: u64 = match tick_ns.checked_mul(burst) {
            Some(t) => t,
            None => u64::MAX,
        };
        RateLimiter { tick_ns, tolerance_ns, tat_ns: None, baseline: instant_now() }
    }

    /// Creates a new rate limiter, or `None` where `new` would refuse the
    /// arguments: a zero `rate`, or a tick `per / rate` beyond `u64::MAX` nanoseconds.
    pub fn try_new(rate: u64, per: Duration, burst: u64) -> (r: Option<Self>)
        ensures
            r is Some <==> (rate > 0 && tick_for(rate, duration_total_nanos(per)) <= u64::MAX),
            r matches Some(l) ==> {
                &&& l.tick() == tick_for(rate, duration_total_nanos(per))
                &&& l.tolerance() == sat_mul(l.tick(), burst)
                &&& l.tat() is None
            },
    {
        if rate == 0 {
            return None;
        }
        let per_ns: u128 = duration_as_nanos(&per);
        if per_ns / (rate as u128) > (u64::MAX as u128) {
            return None;
        }
        Some(Self::new(rate, per, burst))
    }

    /// Attempts to acquire a permit from the rate limiter, at the current time.
    ///
    /// The clock is read once, at some instant `at`, as the nanoseconds elapsed
    /// from the baseline to `at` (truncated to 64 bits); the
    /// request is then decided as [`RateLimiter::acquire_at_ns`] decides it at
    /// that instant.
    pub fn acquire(&mut self) -> (r: AcquireResult)
        ensures
            final(self).tick() == old(self).tick(),
            final(self).tolerance() == old(self).tolerance(),
            final(self).baseline() == old(self).baseline(),
            exists|at: Instant|
                {
                    let now = #[trigger] truncated_nanos(instant_elapsed(at, old(self).baseline()));
                    &&& final(self).tat() == tat_after(
                        old(self).tick(),
                        old(self).tolerance(),
                        old(self).tat(),
                        now,
                    )
                    &&& r@ == outcome(old(self).tolerance(), old(self).tat(), now)
                },
    {
        let now_ns: u64 = self.now_ns();
        self.acquire_at_ns(now_ns)
    }

    /// Attempts to acquire a permit at the given time, in nanoseconds since the
    /// limiter's baseline.
    ///
    /// The first request is allowed and sets TAT = now + T (saturating). A later request is
    /// allowed when now >= TAT - τ, and then sets TAT = max(now, TAT) + T
    /// (saturating); otherwise it is denied, leaves the TAT as it was, and is told
    /// to retry after TAT - τ - now.
    pub fn acquire_at_ns(&mut self, now_ns: u64) -> (r: AcquireResult)
        ensures
            final(self).tick() == old(self).tick(),
            final(self).tolerance() == old(self).tolerance(),
            final(self).baseline() == old(self).baseline(),
            final(self).tat() == tat_after(old(self).tick(), old(self).tolerance(), old(self).tat(), now_ns),
            r@ == outcome(old(self).tolerance(), old(self).tat(), now_ns),
            r.allowed == admits(old(self).tolerance(), old(self).tat(), now_ns),
    {
        match self.tat_ns {
            None => {
                self.tat_ns = Some(now_ns.saturating_add(self.tick_ns));
                AcquireResult::allowed()
            },
            Some(tat_ns) => {
                let earliest_ns: u64 = match tat_ns.checked_sub(self.tolerance_ns) {
                    None => return self.allow_request(now_ns, tat_ns),
                    Some(earliest) => earliest,
                };
                if now_ns < earliest_ns {
                    let retry_after_ns: u64 = earliest_ns.saturating_sub(now_ns);
                    AcquireResult::denied(Some(duration_from_nanos(retry_after_ns)))
                } else {
                    self.allow_request(now_ns, tat_ns)
                }
            },
        }
    }

    /// Allows the request and updates TAT to max(now, TAT) + T, saturating.
    fn allow_request(&mut self, now_ns: u64, tat_ns: u64) -> (r: AcquireResult)
        ensures
            final(self).tick() == old(self).tick(),
            final(self).tolerance() == old(self).tolerance(),
            final(self).baseline() == old(self).baseline(),
            final(self).tat() == Some(crate::gcra::advanced_tat(old(self).tick(), tat_ns, now_ns)),
            r.allowed,
            r.retry_after.is_none(),
    {
        let new_tat_ns: u64 = if now_ns > tat_ns {
            now_ns.saturating_add(self.tick_ns)
        } else {
            tat_ns.saturating_add(self.tick_ns)
        };
        self.tat_ns = Some(new_tat_ns);
        AcquireResult::allowed()
    }

    /// Resets the rate limiter state.
    ///
    /// This clears the internal state, allowing the next request to pass immediately.
    pub fn reset(&mut self)
        ensures
            final(self).tick() == old(self).tick(),
            final(self).tolerance() == old(self).tolerance(),
            final(self).baseline() == old(self).baseline(),
            final(self).tat() is None,
    {
        self.tat_ns = None;
    }

    /// Gets current time in nanoseconds relative to baseline, truncated to 64 bits:
    /// the nanoseconds elapsed from the baseline to the instant the clock reads.
    fn now_ns(&self) -> (r: u64)
        ensures
            exists|at: Instant| r == #[trigger] truncated_nanos(instant_elapsed(at, self.baseline())),
    {
        let at: Instant = instant_now();
        let elapsed: Duration = instant_duration_since(&at, self.baseline);
        let nanos: u128 = duration_as_nanos(&elapsed);
        let now_ns: u64 = #[verifier::truncate] (nanos as u64);
        assert(now_ns == truncated_nanos(instant_elapsed(at, self.baseline())));
        now_ns
    }
}

impl Clone for RateLimiter {
    /// A limiter in the same state, with the same baseline.
    fn clone(&self) -> (r: Self)
        ensures
            r.tick() == self.tick(),
            r.tolerance() == self.tolerance(),
            r.tat() == self.tat(),
            r.baseline() == self.baseline(),
    {
        RateLimiter {
            tick_ns: self.tick_ns,
            tolerance_ns: self.tolerance_ns,
            tat_ns: self.tat_ns,
            baseline: self.baseline,
        }
    }
}

} // verus!
