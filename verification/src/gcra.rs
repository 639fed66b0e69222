//! The mathematical model of GCRA shared by both limiters, and the laws it obeys.
//!
//! Times and durations are nanoseconds. `tick` is T, the emission interval;
//! `tolerance` is τ, the burst time that may be accumulated; `tat` is the
//! theoretical arrival time of the next request.

use vstd::prelude::*;

verus! {

/// `a + b`, clamped to `u64::MAX`.
pub open spec fn sat_add(a: u64, b: u64) -> u64 {
    if a + b > u64::MAX { u64::MAX } else { (a + b) as u64 }
}

/// `a - b`, clamped to 0.
pub open spec fn sat_sub(a: u64, b: u64) -> u64 {
    if a < b { 0 } else { (a - b) as u64 }
}

/// `a * b`, clamped to `u64::MAX`.
pub open spec fn sat_mul(a: u64, b: u64) -> u64 {
    if a * b > u64::MAX { u64::MAX } else { (a * b) as u64 }
}

/// A request at `now` conforms to a TAT when it arrives no earlier than `TAT - τ`.
pub open spec fn conforms(tolerance: u64, tat: u64, now: u64) -> bool {
    now + tolerance >= tat
}

/// The TAT after a request at `now` was allowed: `max(now, TAT) + T`, saturating.
pub open spec fn advanced_tat(tick: u64, tat: u64, now: u64) -> u64 {
    sat_add(if now > tat { now } else { tat }, tick)
}

/// How long a request at `now` must wait before it conforms: `TAT - τ - now`,
/// each subtraction clamped at 0.
pub open spec fn wait_nanos(tolerance: u64, tat: u64, now: u64) -> u64 {
    sat_sub(sat_sub(tat, tolerance), now)
}

/// Whether a request at `now` is allowed; `None` is the state before any request.
pub open spec fn admits(tolerance: u64, tat: Option<u64>, now: u64) -> bool {
    match tat {
        None => true,
        Some(t) => conforms(tolerance, t, now),
    }
}

/// The state of a limiter after a request at `now`.
///
/// The first request sets the TAT to `now + T` (saturating); a conforming request advances it;
/// a denied request leaves it as it was.
pub open spec fn tat_after(tick: u64, tolerance: u64, tat: Option<u64>, now: u64) -> Option<u64> {
    match tat {
        None => Some(sat_add(now, tick)),
        Some(t) => if conforms(tolerance, t, now) {
            Some(advanced_tat(tick, t, now))
        } else {
            Some(t)
        },
    }
}

/// What a request at `now` is answered: whether it is allowed and, when it is
/// denied, the nanoseconds to wait.
pub open spec fn outcome(tolerance: u64, tat: Option<u64>, now: u64) -> (bool, Option<u128>) {
    match tat {
        None => (true, None),
        Some(t) => if conforms(tolerance, t, now) {
            (true, None)
        } else {
            (false, Some(wait_nanos(tolerance, t, now) as u128))
        },
    }
}

/// The new TAT that the shared-state limiter stores for a request at `now`, or
/// `None` when it denies it. There an unset TAT is written 0.
pub open spec fn shared_next_tat(tick: u64, tolerance: u64, tat: u64, now: u64) -> Option<u64> {
    if conforms(tolerance, tat, now) {
        Some(advanced_tat(tick, tat, now))
    } else {
        None
    }
}

/// What the shared-state limiter answers a request at `now`, given what its atomic
/// update reported: `Ok` with the TAT it replaced, or `Err` with the TAT that
/// made it deny the request.
pub open spec fn shared_outcome(tolerance: u64, observed: Result<u64, u64>, now: u64) -> (bool, Option<u128>) {
    match observed {
        Ok(_) => (true, None),
        Err(tat) => (false, Some(wait_nanos(tolerance, tat, now) as u128)),
    }
}

/// Whether `observed` is a report that the atomic update of the TAT may give for
/// a request at `now`: `Ok(tat)` when the update rule stored a new TAT in place of
/// `tat`, `Err(tat)` when the rule refused the request against `tat`.
pub open spec fn update_reported(tick: u64, tolerance: u64, observed: Result<u64, u64>, now: u64) -> bool {
    match observed {
        Ok(tat) => shared_next_tat(tick, tolerance, tat, now) is Some,
        Err(tat) => shared_next_tat(tick, tolerance, tat, now) is None,
    }
}

/// The state after a run of requests at the instants `times`, in order.
pub open spec fn replay(tick: u64, tolerance: u64, tat: Option<u64>, times: Seq<u64>) -> Option<u64>
    decreases times.len(),
{
    if times.len() == 0 {
        tat
    } else {
        replay(tick, tolerance, tat_after(tick, tolerance, tat, times[0]), times.drop_first())
    }
}

/// How many requests of a run at the instants `times` are allowed.
pub open spec fn admitted_count(tick: u64, tolerance: u64, tat: Option<u64>, times: Seq<u64>) -> nat
    decreases times.len(),
{
    if times.len() == 0 {
        0
    } else {
        (if admits(tolerance, tat, times[0]) { 1nat } else { 0nat })
            + admitted_count(tick, tolerance, tat_after(tick, tolerance, tat, times[0]), times.drop_first())
    }
}

/// Before its first request, and after a reset, a limiter allows the next request
/// whenever it comes, and its TAT becomes `now + T` (saturating).
pub proof fn law_unset_state_allows(tick: u64, tolerance: u64, now: u64)
    ensures
        admits(tolerance, None, now),
        outcome(tolerance, None, now) == (true, None::<u128>),
        tat_after(tick, tolerance, None, now) == Some(sat_add(now, tick)),
{
}

/// A denied request leaves the state of the limiter as it was.
pub proof fn law_denied_request_changes_nothing(tick: u64, tolerance: u64, tat: Option<u64>, now: u64)
    requires
        !admits(tolerance, tat, now),
    ensures
        tat_after(tick, tolerance, tat, now) == tat,
        !outcome(tolerance, tat, now).0,
{
}

/// The wait given to a denied request is exact: after waiting it, the request
/// conforms; at any earlier instant, it does not.
pub proof fn law_retry_after_is_exact(tolerance: u64, tat: u64, now: u64)
    requires
        !conforms(tolerance, tat, now),
    ensures
        outcome(tolerance, Some(tat), now) == (false, Some(wait_nanos(tolerance, tat, now) as u128)),
        now + wait_nanos(tolerance, tat, now) <= u64::MAX,
        conforms(tolerance, tat, (now + wait_nanos(tolerance, tat, now)) as u64),
        forall|later: u64| later < now + wait_nanos(tolerance, tat, now) ==> !conforms(tolerance, tat, later),
{
}

/// An allowed request moves the TAT to `max(now, TAT) + T` (saturating): the TAT
/// never goes back, and it moves by a full tick unless it reaches `u64::MAX`.
pub proof fn law_allowed_request_advances_tat(tick: u64, tolerance: u64, tat: u64, now: u64)
    requires
        conforms(tolerance, tat, now),
    ensures
        tat_after(tick, tolerance, Some(tat), now) == Some(advanced_tat(tick, tat, now)),
        advanced_tat(tick, tat, now) >= tat,
        advanced_tat(tick, tat, now) >= now,
        advanced_tat(tick, tat, now) == u64::MAX || advanced_tat(tick, tat, now) >= tat + tick,
        outcome(tolerance, Some(tat), now) == (true, None::<u128>),
{
}

/// The TAT of a limiter never decreases, whatever the request.
pub proof fn law_tat_is_monotone(tick: u64, tolerance: u64, tat: u64, now: u64)
    ensures
        tat_after(tick, tolerance, Some(tat), now) matches Some(next) && next >= tat,
{
}

/// The shared-state limiter decides as the single-owner one: for a set TAT it
/// allows exactly the same requests and stores the same new TAT, and from the
/// unset TAT 0 it allows the request and stores `now + T`, as the other does
/// from no TAT.
pub proof fn law_shared_limiter_agrees(tick: u64, tolerance: u64, tat: u64, now: u64)
    ensures
        shared_next_tat(tick, tolerance, tat, now) is Some <==> admits(tolerance, Some(tat), now),
        admits(tolerance, Some(tat), now) ==> shared_next_tat(tick, tolerance, tat, now) == tat_after(
            tick,
            tolerance,
            Some(tat),
            now,
        ),
        shared_next_tat(tick, tolerance, 0, now) == tat_after(
            tick,
            tolerance,
            None,
            now,
        ),
        !admits(tolerance, Some(tat), now) ==> shared_outcome(tolerance, Err(tat), now) == outcome(
            tolerance,
            Some(tat),
            now,
        ),
{
}

/// A request that the shared limiter denies against the TAT `tat` is told to wait
/// exactly until it conforms to that same TAT: at `now + wait` the update rule
/// accepts it against `tat`, and at every earlier instant it refuses it.
pub proof fn law_shared_denial_retry(tick: u64, tolerance: u64, tat: u64, now: u64)
    requires
        update_reported(tick, tolerance, Err(tat), now),
    ensures
        shared_outcome(tolerance, Err(tat), now) == (false, Some(wait_nanos(tolerance, tat, now) as u128)),
        now + wait_nanos(tolerance, tat, now) <= u64::MAX,
        update_reported(tick, tolerance, Ok(tat), (now + wait_nanos(tolerance, tat, now)) as u64),
        forall|later: u64|
            later < now + wait_nanos(tolerance, tat, now) ==> #[trigger] update_reported(
                tick,
                tolerance,
                Err(tat),
                later,
            ),
{
    law_retry_after_is_exact(tolerance, tat, now);
}

/// A run of requests is decided one request after another: the run extended by a
/// request at `now` ends in the state that this request leaves after the run, and
/// allows one request more exactly when the state after the run admits it. So a
/// sequence of calls, each tied by its contract to one step of `tat_after` and
/// `outcome`, is the run that `replay` and `admitted_count` describe.
pub proof fn law_replay_push(tick: u64, tolerance: u64, tat: Option<u64>, times: Seq<u64>, now: u64)
    ensures
        replay(tick, tolerance, tat, times.push(now)) == tat_after(
            tick,
            tolerance,
            replay(tick, tolerance, tat, times),
            now,
        ),
        admitted_count(tick, tolerance, tat, times.push(now)) == admitted_count(tick, tolerance, tat, times)
            + if admits(tolerance, replay(tick, tolerance, tat, times), now) { 1nat } else { 0nat },
    decreases times.len(),
{
    let extended = times.push(now);
    if times.len() == 0 {
        let next = tat_after(tick, tolerance, tat, now);
        assert(extended.drop_first() =~= Seq::<u64>::empty());
        assert(extended[0] == now);
        assert(replay(tick, tolerance, next, extended.drop_first()) == next);
        assert(admitted_count(tick, tolerance, next, extended.drop_first()) == 0);
        assert(replay(tick, tolerance, tat, times) == tat);
        assert(admitted_count(tick, tolerance, tat, times) == 0);
    } else {
        let next = tat_after(tick, tolerance, tat, times[0]);
        assert(extended[0] == times[0]);
        assert(extended.drop_first() =~= times.drop_first().push(now));
        law_replay_push(tick, tolerance, next, times.drop_first(), now);
        assert(replay(tick, tolerance, tat, extended) == replay(tick, tolerance, next, extended.drop_first()));
        assert(admitted_count(tick, tolerance, tat, extended) == (if admits(tolerance, tat, times[0]) {
            1nat
        } else {
            0nat
        }) + admitted_count(tick, tolerance, next, extended.drop_first()));
    }
}

/// Requests all at one instant, after which the TAT stands too far ahead for
/// that instant: each is denied and leaves the state as it was.
proof fn lemma_denied_run(tick: u64, tolerance: u64, tat: u64, now: u64, i: nat)
    requires
        !conforms(tolerance, tat, now),
    ensures
        admitted_count(tick, tolerance, Some(tat), Seq::new(i, |k: int| now)) == 0,
        replay(tick, tolerance, Some(tat), Seq::new(i, |k: int| now)) == Some(tat),
    decreases i,
{
    let reqs = Seq::new(i, |k: int| now);
    if i > 0 {
        assert(reqs.drop_first() =~= Seq::new((i - 1) as nat, |k: int| now));
        lemma_denied_run(tick, tolerance, tat, now, (i - 1) as nat);
    } else {
        assert(reqs =~= Seq::<u64>::empty());
    }
}

/// `i` requests all at one instant, from a TAT `j` ticks ahead of that instant,
/// with tolerance `burst` ticks: they are allowed while the TAT is at most
/// `burst` ticks ahead, each moving it one tick further; then all are denied.
proof fn lemma_burst_from(tick: u64, burst: u64, now: u64, j: nat, i: nat)
    requires
        tick > 0,
        tick * burst <= u64::MAX,
        now + (burst + 1) * tick <= u64::MAX,
        1 <= j <= burst + 1,
    ensures
        admitted_count(tick, (tick * burst) as u64, Some((now + j * tick) as u64), Seq::new(i, |k: int| now))
            == if j + i <= burst + 1 { i } else { (burst + 1 - j) as nat },
        replay(tick, (tick * burst) as u64, Some((now + j * tick) as u64), Seq::new(i, |k: int| now))
            == Some((now + (if j + i <= burst + 1 { (j + i) as int } else { burst + 1 }) * tick) as u64),
    decreases i,
{
    let tolerance: u64 = (tick * burst) as u64;
    let reqs = Seq::new(i, |k: int| now);
    let tat: u64 = (now + j * tick) as u64;
    assert(j * tick <= (burst + 1) * tick) by (nonlinear_arith)
        requires
            j <= burst + 1,
    ;
    if i == 0 {
        assert(reqs =~= Seq::<u64>::empty());
    } else if j == burst + 1 {
        assert(tick * burst < (burst + 1) * tick) by (nonlinear_arith)
            requires
                tick > 0,
        ;
        assert(!conforms(tolerance, tat, now));
        lemma_denied_run(tick, tolerance, tat, now, i);
    } else {
        assert(j * tick <= burst * tick) by (nonlinear_arith)
            requires
                j <= burst,
        ;
        assert(tick * burst == burst * tick) by (nonlinear_arith);
        assert((j + 1) * tick == j * tick + tick) by (nonlinear_arith);
        assert((j + 1) * tick <= (burst + 1) * tick) by (nonlinear_arith)
            requires
                j + 1 <= burst + 1,
        ;
        assert(conforms(tolerance, tat, now));
        assert(advanced_tat(tick, tat, now) == (now + (j + 1) * tick) as u64);
        assert(reqs.drop_first() =~= Seq::new((i - 1) as nat, |k: int| now));
        lemma_burst_from(tick, burst, now, j + 1, (i - 1) as nat);
        assert(j + 1 + (i - 1) == j + i);
    }
}

/// The burst capacity: a limiter with no TAT (fresh or just reset) and tolerance
/// `burst · T`, given `k` earlier requests at the same instant, allows a request
/// at that instant exactly when `k <= burst`; afterwards each request at that
/// instant is denied and told to wait exactly one tick. Of `k` requests at one
/// instant, `min(k, burst + 1)` are allowed.
pub proof fn law_burst_capacity(tick: u64, burst: u64, now: u64, k: nat)
    requires
        tick > 0,
        tick * burst <= u64::MAX,
        now + (burst + 1) * tick <= u64::MAX,
    ensures
        sat_mul(tick, burst) == tick * burst,
        admitted_count(tick, (tick * burst) as u64, None, Seq::new(k, |i: int| now))
            == if k <= burst + 1 { k } else { (burst + 1) as nat },
        admits((tick * burst) as u64, replay(tick, (tick * burst) as u64, None, Seq::new(k, |i: int| now)), now)
            <==> k <= burst,
        k > burst ==> outcome(
            (tick * burst) as u64,
            replay(tick, (tick * burst) as u64, None, Seq::new(k, |i: int| now)),
            now,
        ) == (false, Some(tick as u128)),
{
    let tolerance: u64 = (tick * burst) as u64;
    let reqs = Seq::new(k, |i: int| now);
    assert(tick <= (burst + 1) * tick) by (nonlinear_arith)
        requires
            tick > 0,
    ;
    if k == 0 {
        assert(reqs =~= Seq::<u64>::empty());
    } else {
        assert(1 * tick == tick);
        assert(sat_add(now, tick) == (now + 1 * tick) as u64);
        assert(reqs.drop_first() =~= Seq::new((k - 1) as nat, |i: int| now));
        lemma_burst_from(tick, burst, now, 1, (k - 1) as nat);
        let m: int = if k <= burst + 1 { k as int } else { burst + 1 };
        assert(replay(tick, tolerance, None, reqs) == replay(
            tick,
            tolerance,
            Some(sat_add(now, tick)),
            reqs.drop_first(),
        ));
        assert(replay(tick, tolerance, None, reqs) == Some((now + m * tick) as u64));
        assert(m * tick <= (burst + 1) * tick) by (nonlinear_arith)
            requires
                m <= burst + 1,
        ;
        assert(tick * burst == burst * tick) by (nonlinear_arith);
        if k <= burst {
            assert(m * tick <= burst * tick) by (nonlinear_arith)
                requires
                    m <= burst,
            ;
        } else {
            assert(m * tick == burst * tick + tick) by (nonlinear_arith)
                requires
                    m == burst + 1,
            ;
        }
    }
}

/// Over a run of requests at instants no later than `horizon`, starting from the
/// TAT `tat`, each allowed request pushes the TAT a full tick further, and no TAT
/// beyond `horizon + τ` admits a request.
proof fn lemma_run_bound(tick: u64, tolerance: u64, tat: u64, times: Seq<u64>, horizon: u64)
    requires
        forall|i: int| 0 <= i < times.len() ==> times[i] <= horizon,
        horizon + tolerance + tick <= u64::MAX,
    ensures
        admitted_count(tick, tolerance, Some(tat), times) * tick + tat
            <= if tat > horizon + tolerance + tick { tat as int } else { horizon + tolerance + tick },
    decreases times.len(),
{
    if times.len() > 0 {
        let now: u64 = times[0];
        let rest = times.drop_first();
        assert forall|i: int| 0 <= i < rest.len() implies rest[i] <= horizon by {
            assert(rest[i] == times[i + 1]);
        }
        let next: u64 = tat_after(tick, tolerance, Some(tat), now).unwrap();
        lemma_run_bound(tick, tolerance, next, rest, horizon);
        let c: nat = admitted_count(tick, tolerance, Some(next), rest);
        let bound: int = horizon + tolerance + tick;
        if conforms(tolerance, tat, now) {
            assert(tat <= horizon + tolerance);
            assert(next >= tat + tick);
            assert(next <= bound);
            assert(c * tick + next <= bound);
            assert((c + 1) * tick == c * tick + tick) by (nonlinear_arith);
            assert(admitted_count(tick, tolerance, Some(tat), times) == c + 1);
        } else {
            assert(next == tat);
            assert(admitted_count(tick, tolerance, Some(tat), times) == c);
        }
    } else {
        assert(admitted_count(tick, tolerance, Some(tat), times) == 0);
        assert(0 * tick == 0);
    }
}

/// The rate guarantee of GCRA, for a limiter in any state: over a window of
/// requests at instants between `start` and `horizon`, the allowed requests
/// number `n` with `(n - 1) · T <= (horizon - start) + τ`.
pub proof fn law_rate_bound(tick: u64, tolerance: u64, tat: Option<u64>, times: Seq<u64>, start: u64, horizon: u64)
    requires
        forall|i: int| 0 <= i < times.len() ==> start <= #[trigger] times[i] <= horizon,
        horizon + tolerance + tick <= u64::MAX,
    ensures
        admitted_count(tick, tolerance, tat, times) >= 1 ==> (admitted_count(tick, tolerance, tat, times) - 1)
            * tick <= horizon - start + tolerance,
    decreases times.len(),
{
    if times.len() > 0 {
        let now: u64 = times[0];
        let rest = times.drop_first();
        assert forall|i: int| 0 <= i < rest.len() implies start <= #[trigger] rest[i] <= horizon by {
            assert(rest[i] == times[i + 1]);
        }
        let next: Option<u64> = tat_after(tick, tolerance, tat, now);
        if admits(tolerance, tat, now) {
            // The first allowed request: the TAT moves to at least `now + T`,
            // and from there each allowed request costs a full tick.
            let n: u64 = next.unwrap();
            assert(n >= now + tick);
            assert(n <= horizon + tolerance + tick);
            lemma_run_bound(tick, tolerance, n, rest, horizon);
            let c: nat = admitted_count(tick, tolerance, next, rest);
            assert(admitted_count(tick, tolerance, tat, times) == c + 1);
        } else {
            assert(next == tat);
            law_rate_bound(tick, tolerance, tat, rest, start, horizon);
        }
    }
}

/// The rate guarantee counted from the first request of a fresh (or just reset)
/// limiter: the allowed requests number `n >= 1` with
/// `(n - 1) · T <= (horizon - first) + τ`, where `first` is the instant of the
/// first request and `horizon` is no earlier than any request.
pub proof fn law_rate_bound_from_first_request(tick: u64, tolerance: u64, times: Seq<u64>, horizon: u64)
    requires
        times.len() > 0,
        forall|i: int| 0 <= i < times.len() ==> times[i] <= horizon,
        horizon + tolerance + tick <= u64::MAX,
    ensures
        admitted_count(tick, tolerance, None, times) >= 1,
        (admitted_count(tick, tolerance, None, times) - 1) * tick <= horizon - times[0] + tolerance,
{
    let rest = times.drop_first();
    assert forall|i: int| 0 <= i < rest.len() implies rest[i] <= horizon by {
        assert(rest[i] == times[i + 1]);
    }
    assert(times[0] <= horizon);
    lemma_run_bound(tick, tolerance, (times[0] + tick) as u64, rest, horizon);
}

/// The rate guarantee in permits: with tolerance `burst · T`, a limiter in any
/// state allows at most `burst + 1 + d / T` requests in a window of length `d`.
pub proof fn law_permits_per_window(
    tick: u64,
    burst: u64,
    tat: Option<u64>,
    times: Seq<u64>,
    start: u64,
    horizon: u64,
)
    requires
        tick > 0,
        tick * burst <= u64::MAX,
        start <= horizon,
        forall|i: int| 0 <= i < times.len() ==> start <= #[trigger] times[i] <= horizon,
        horizon + tick * burst + tick <= u64::MAX,
    ensures
        admitted_count(tick, (tick * burst) as u64, tat, times) <= burst + 1 + (horizon - start) / (tick as int),
{
    let tolerance: u64 = (tick * burst) as u64;
    let n: nat = admitted_count(tick, tolerance, tat, times);
    law_rate_bound(tick, tolerance, tat, times, start, horizon);
    let d: int = horizon - start;
    assert(d / (tick as int) >= 0) by (nonlinear_arith)
        requires
            d >= 0,
            tick > 0,
    ;
    if n >= 1 {
        let x: int = n - 1 - burst;
        assert((n - 1) * tick <= d + tick * burst);
        assert(x * tick <= d) by (nonlinear_arith)
            requires
                (n - 1) * tick <= d + tick * burst,
                x == n - 1 - burst,
        ;
        assert(x <= d / (tick as int)) by (nonlinear_arith)
            requires
                x * tick <= d,
                tick > 0,
                d >= 0,
        ;
    }
}

} // verus!
