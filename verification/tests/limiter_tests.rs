use gcra_limiter::sync_rate_limiter::next_tat;
use gcra_limiter::{AcquireResult, RateLimiter, SyncRateLimiter};
use std::time::Duration;

#[test]
fn test_basic_rate_limiting() {
    let mut limiter = RateLimiter::new(10, Duration::from_secs(1), 3);

    // First 4 should be allowed (burst 3 + 1)
    assert!(limiter.acquire().allowed);
    assert!(limiter.acquire().allowed);
    assert!(limiter.acquire().allowed);
    assert!(limiter.acquire().allowed);

    // 5th should be denied
    assert!(!limiter.acquire().allowed);
}

#[test]
fn test_burst() {
    let mut limiter = RateLimiter::new(10, Duration::from_secs(1), 5);

    // All 6 requests should be allowed (burst 5 + 1)
    for _ in 0..6 {
        assert!(limiter.acquire().allowed);
    }

    // 7th should be denied
    assert!(!limiter.acquire().allowed);
}

#[test]
fn test_reset() {
    let mut limiter = RateLimiter::new(10, Duration::from_secs(1), 1);

    limiter.acquire();
    limiter.acquire();
    assert!(!limiter.acquire().allowed);

    limiter.reset();
    assert!(limiter.acquire().allowed);
}

#[test]
fn test_sync_rate_limiter() {
    let limiter = SyncRateLimiter::new(10, Duration::from_secs(1), 3);

    // First 4 should be allowed (burst 3 + 1)
    assert!(limiter.acquire().allowed);
    assert!(limiter.acquire().allowed);
    assert!(limiter.acquire().allowed);
    assert!(limiter.acquire().allowed);

    // 5th should be denied
    assert!(!limiter.acquire().allowed);

    // reset restores
    limiter.reset();
    assert!(limiter.acquire().allowed);
}

#[test]
fn test_acquire_result_helpers() {
    let result = AcquireResult::allowed();
    assert!(result.is_allowed());
    assert!(!result.is_denied());
    assert!(result.retry_after.is_none());

    let result = AcquireResult::denied(Some(Duration::from_millis(100)));
    assert!(!result.is_allowed());
    assert!(result.is_denied());
    assert!(result.retry_after.is_some());
}

#[test]
fn test_retry_after() {
    let mut limiter = RateLimiter::new(1, Duration::from_secs(1), 0);

    limiter.acquire();
    let result = limiter.acquire();

    assert!(!result.allowed);
    assert!(result.retry_after.is_some());
}

#[test]
fn test_long_running() {
    // Test that the rate limiter handles long-running scenarios without overflow
    let mut limiter = RateLimiter::new(1000, Duration::from_secs(1), 100);

    // Simulate 1 million requests
    for i in 0..1_000_000 {
        let _result = limiter.acquire();
        // Just ensure it doesn't panic
        if i % 100_000 == 0 {
            // Reset periodically to avoid all requests being denied
            limiter.reset();
        }
    }
}

#[test]
fn test_boundary_conditions() {
    // Test with minimal rate
    let mut limiter = RateLimiter::new(1, Duration::from_secs(1), 0);
    assert!(limiter.acquire().allowed);
    assert!(!limiter.acquire().allowed);

    // Test with zero burst
    let mut limiter = RateLimiter::new(10, Duration::from_secs(1), 0);
    assert!(limiter.acquire().allowed);
    assert!(!limiter.acquire().allowed);

    // Test with large burst
    let mut limiter = RateLimiter::new(1, Duration::from_secs(1), 1000);
    for _ in 0..1001 {
        assert!(limiter.acquire().allowed);
    }
    assert!(!limiter.acquire().allowed);
}

// Deterministic runs at chosen instants.

const MS: u64 = 1_000_000;

#[test]
fn first_request_sets_tat_one_tick_ahead() {
    // 10 per second: T = 100 ms; burst 0: τ = 0.
    let mut limiter = RateLimiter::new(10, Duration::from_secs(1), 0);
    assert_eq!(limiter.acquire_at_ns(5 * MS), AcquireResult::allowed());
    // TAT = 105 ms: a request at 60 ms waits exactly 45 ms.
    let denied = limiter.acquire_at_ns(60 * MS);
    assert_eq!(denied, AcquireResult::denied(Some(Duration::from_millis(45))));
    // At 105 ms it conforms.
    assert!(limiter.acquire_at_ns(105 * MS).allowed);
}

#[test]
fn burst_at_one_instant_then_exact_retry() {
    // T = 100 ms, τ = 300 ms.
    let mut limiter = RateLimiter::new(10, Duration::from_secs(1), 3);
    for _ in 0..4 {
        assert!(limiter.acquire_at_ns(0).is_allowed());
    }
    // TAT = 400 ms; earliest = 100 ms.
    let r = limiter.acquire_at_ns(0);
    assert!(r.is_denied());
    assert_eq!(r.retry_after, Some(Duration::from_nanos(100 * MS)));
    // One nanosecond early: still denied, one nanosecond to wait.
    let r = limiter.acquire_at_ns(100 * MS - 1);
    assert_eq!(r.retry_after, Some(Duration::from_nanos(1)));
    // After the wait: allowed, and TAT = 500 ms.
    assert!(limiter.acquire_at_ns(100 * MS).allowed);
    assert_eq!(limiter.acquire_at_ns(150 * MS).retry_after, Some(Duration::from_millis(50)));
}

#[test]
fn denied_request_does_not_move_tat() {
    let mut limiter = RateLimiter::new(1, Duration::from_secs(1), 0);
    assert!(limiter.acquire_at_ns(0).allowed);
    for i in 0..10u64 {
        let r = limiter.acquire_at_ns(i * MS);
        assert_eq!(r.retry_after, Some(Duration::from_nanos(1_000 * MS - i * MS)));
    }
    assert!(limiter.acquire_at_ns(1_000 * MS).allowed);
}

#[test]
fn idle_limiter_restarts_from_now() {
    // T = 100 ms, τ = 100 ms.
    let mut limiter = RateLimiter::new(10, Duration::from_secs(1), 1);
    assert!(limiter.acquire_at_ns(0).allowed);
    // Long idle: TAT = max(now, TAT) + T = 10.1 s.
    assert!(limiter.acquire_at_ns(10_000 * MS).allowed);
    assert!(limiter.acquire_at_ns(10_000 * MS).allowed);
    assert_eq!(
        limiter.acquire_at_ns(10_000 * MS).retry_after,
        Some(Duration::from_millis(100))
    );
}

#[test]
fn rate_bound_over_a_run() {
    // T = 10 ms, τ = 20 ms; requests every millisecond for 100 ms.
    let mut limiter = RateLimiter::new(100, Duration::from_secs(1), 2);
    let mut allowed = 0u64;
    for t in 0..=100u64 {
        if limiter.acquire_at_ns(t * MS).allowed {
            allowed += 1;
        }
    }
    // (n - 1) * 10 ms <= 100 ms + 20 ms.
    assert!((allowed - 1) * 10 <= 120);
    assert_eq!(allowed, 13);
}

#[test]
fn saturating_tat_near_the_end_of_time() {
    let mut limiter = RateLimiter::new(1, Duration::from_nanos(10), 0);
    assert!(limiter.acquire_at_ns(u64::MAX - 10).allowed);
    // TAT = u64::MAX; the next request is denied until then.
    assert_eq!(
        limiter.acquire_at_ns(u64::MAX - 4).retry_after,
        Some(Duration::from_nanos(4))
    );
    // At u64::MAX it is allowed, and the TAT stays at u64::MAX.
    assert!(limiter.acquire_at_ns(u64::MAX).allowed);
    assert_eq!(
        limiter.acquire_at_ns(u64::MAX - 1).retry_after,
        Some(Duration::from_nanos(1))
    );
}

#[test]
fn tolerance_saturates_with_huge_burst() {
    let mut limiter = RateLimiter::new(1, Duration::from_secs(1), u64::MAX);
    for _ in 0..1000 {
        assert!(limiter.acquire_at_ns(0).allowed);
    }
}

#[test]
fn reset_after_denial_allows() {
    let mut limiter = RateLimiter::new(1, Duration::from_secs(1), 0);
    assert!(limiter.acquire_at_ns(0).allowed);
    assert!(limiter.acquire_at_ns(1).is_denied());
    limiter.reset();
    assert!(limiter.acquire_at_ns(2).allowed);
    assert_eq!(limiter.acquire_at_ns(2).retry_after, Some(Duration::from_secs(1)));
}

#[test]
fn clone_copies_state() {
    let mut limiter = RateLimiter::new(1, Duration::from_secs(1), 0);
    assert!(limiter.acquire_at_ns(0).allowed);
    let mut copy = limiter.clone();
    assert_eq!(copy.acquire_at_ns(0).retry_after, Some(Duration::from_secs(1)));
    assert_eq!(limiter.acquire_at_ns(0).retry_after, Some(Duration::from_secs(1)));
}

#[test]
fn try_new_refuses_what_new_cannot_take() {
    assert!(RateLimiter::try_new(0, Duration::from_secs(1), 5).is_none());
    assert!(RateLimiter::try_new(1, Duration::from_secs(u64::MAX), 5).is_none());
    let mut limiter = RateLimiter::try_new(4, Duration::from_secs(1), 0).unwrap();
    assert!(limiter.acquire_at_ns(0).allowed);
    assert_eq!(limiter.acquire_at_ns(0).retry_after, Some(Duration::from_millis(250)));
}

#[test]
fn tick_uses_whole_nanoseconds() {
    // 1 s / 3 = 333_333_333 ns.
    let mut limiter = RateLimiter::new(3, Duration::from_secs(1), 0);
    assert!(limiter.acquire_at_ns(0).allowed);
    assert_eq!(limiter.acquire_at_ns(0).retry_after, Some(Duration::from_nanos(333_333_333)));
}

// The shared-state limiter.

#[test]
fn next_tat_matches_the_single_limiter() {
    // Unset TAT: the request is allowed and the TAT set to now + T.
    assert_eq!(next_tat(100, 300, 0, 7), Some(107));
    // Conforming: max(now, TAT) + T.
    assert_eq!(next_tat(100, 300, 400, 100), Some(500));
    assert_eq!(next_tat(100, 300, 400, 1_000), Some(1_100));
    // Too early.
    assert_eq!(next_tat(100, 300, 400, 99), None);
    // Tolerance beyond TAT: always conforms.
    assert_eq!(next_tat(100, 500, 400, 0), Some(500));
    // Saturation.
    assert_eq!(next_tat(100, 0, u64::MAX - 50, u64::MAX - 50), Some(u64::MAX));
}

#[test]
fn shared_answer_from_update_report() {
    let limiter = SyncRateLimiter::new(10, Duration::from_secs(1), 3);
    assert_eq!(limiter.answer(0, Ok(12)), AcquireResult::allowed());
    // τ = 300 ms; TAT = 400 ms; at 30 ms the wait is 70 ms.
    let r = limiter.answer(30 * MS, Err(400 * MS));
    assert_eq!(r, AcquireResult::denied(Some(Duration::from_millis(70))));
}

#[test]
fn shared_limiter_denies_with_retry_after() {
    let limiter = SyncRateLimiter::new(1, Duration::from_secs(3600), 0);
    assert!(limiter.acquire().allowed);
    let r = limiter.acquire();
    assert!(r.is_denied());
    let wait = r.retry_after.unwrap();
    assert!(wait > Duration::from_secs(3599) && wait <= Duration::from_secs(3600));
}

#[test]
fn shared_limiter_clone_keeps_state() {
    let limiter = SyncRateLimiter::new(1, Duration::from_secs(3600), 0);
    assert!(limiter.acquire().allowed);
    let copy = limiter.clone();
    assert!(copy.acquire().is_denied());
    copy.reset();
    assert!(copy.acquire().allowed);
    assert!(limiter.acquire().is_denied());
}

#[test]
fn first_request_with_huge_tick_saturates() {
    let mut limiter = RateLimiter::new(1, Duration::from_nanos(u64::MAX), 0);
    assert_eq!(limiter.acquire_at_ns(5), AcquireResult::allowed());
    // TAT = u64::MAX.
    assert_eq!(
        limiter.acquire_at_ns(6),
        AcquireResult::denied(Some(Duration::from_nanos(u64::MAX - 6)))
    );
}

#[test]
fn requests_past_the_burst_wait_one_tick() {
    // T = 100 ms, τ = 200 ms: three allowed at one instant, then each waits 100 ms.
    let mut limiter = RateLimiter::new(10, Duration::from_secs(1), 2);
    for k in 0..10 {
        let r = limiter.acquire_at_ns(7 * MS);
        if k <= 2 {
            assert_eq!(r, AcquireResult::allowed());
        } else {
            assert_eq!(r, AcquireResult::denied(Some(Duration::from_millis(100))));
        }
    }
}

#[test]
fn permits_per_window_from_a_running_limiter() {
    // T = 10 ms, τ = 20 ms (burst 2). Run the limiter a while, then count a
    // window of 50 ms with requests every millisecond.
    let mut limiter = RateLimiter::new(100, Duration::from_secs(1), 2);
    for t in 0..30u64 {
        limiter.acquire_at_ns(t * MS);
    }
    let mut allowed = 0u64;
    for t in 100..=150u64 {
        if limiter.acquire_at_ns(t * MS).allowed {
            allowed += 1;
        }
    }
    // At most burst + 1 + 50 / 10 = 8.
    assert!(allowed <= 8);
    assert_eq!(allowed, 8);
}
