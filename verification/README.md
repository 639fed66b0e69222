# gcra_limiter

Rate limiting with the Generic Cell Rate Algorithm (GCRA), verified with Verus.

- `src/gcra.rs` — the algorithm as spec functions (conformance, TAT update, wait
  time, runs of requests) and the laws proved of it: exact retry times, burst
  capacity at one instant, and the rate bound over any window.
- `src/rate_limiter.rs` — `RateLimiter`, whose contracts are stated over that model;
  `acquire_at_ns` decides a request at a given instant, `acquire` at the clock's.
- `src/sync_rate_limiter.rs` — `SyncRateLimiter`, whose TAT lives in an `AtomicU64`
  updated with `fetch_update` and the verified update rule `next_tat`.
- `src/acquire_result.rs` — `AcquireResult`.
- `src/clock.rs` — the trusted calls into `std::time`.
- `tests/` — the tests, run against the compiled library.
