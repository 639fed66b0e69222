//! Generic Cell Rate Algorithm (GCRA) rate limiting.
//!
//! A request is described by the instant at which it arrives. The limiter keeps a
//! theoretical arrival time (TAT) for the next request; a request arriving no earlier
//! than `TAT - τ` is allowed and pushes the TAT forward by one tick `T`, any other
//! request is denied and told how long to wait.
//!
//! - `gcra`: the model of the algorithm, as spec functions, and its laws;
//! - `clock`: the instants and durations read from std;
//! - `acquire_result`: the answer to a request;
//! - `rate_limiter`: the single-owner limiter;
//! - `sync_rate_limiter`: the limiter shared between threads through an atomic.

pub mod acquire_result;
pub mod clock;
pub mod gcra;
pub mod rate_limiter;
pub mod sync_rate_limiter;

pub use acquire_result::AcquireResult;
pub use rate_limiter::RateLimiter;
pub use sync_rate_limiter::SyncRateLimiter;
