//! Properties of the pacing decisions over whole runs.

use crate::pacing::{interval_for, Action, FailurePolicy, PacerModel, WorkerStatus, NANOS_PER_SEC};
use vstd::arithmetic::div_mod::{
    lemma_basic_div, lemma_div_by_multiple, lemma_div_by_multiple_is_strongly_ordered,
    lemma_div_is_ordered, lemma_div_plus_one, lemma_fundamental_div_mod,
};
use vstd::prelude::*;

verus! {

/// The instant at which a worker's time is up, in nanoseconds.
pub open spec fn limit(w: PacerModel) -> nat {
    w.duration * (NANOS_PER_SEC as nat)
}

/// What shrinks with every request of a run: twice the time left, plus one
/// while the interval since the last request has already passed.
pub open spec fn run_measure(w: PacerModel, now: nat) -> nat {
    (if now < limit(w) {
        (limit(w) - now) as nat
    } else {
        0nat
    }) * 2 + if w.since_last(now) >= w.delta {
        1nat
    } else {
        0nat
    }
}

/// The time is up exactly when the clock has reached the limit.
pub proof fn lemma_up_iff_past_limit(w: PacerModel, now: nat)
    ensures
        w.time_is_up(now) <==> now >= limit(w),
{
    let k = NANOS_PER_SEC as int;
    lemma_fundamental_div_mod(now as int, k);
    let q = now as int / k;
    let r = now as int % k;
    let d = w.duration as int;
    assert(q >= d ==> now >= d * k) by (nonlinear_arith)
        requires
            now == k * q + r,
            0 <= r < k,
            k > 0,
            d >= 0,
    ;
    assert(q < d ==> now < d * k) by (nonlinear_arith)
        requires
            now == k * q + r,
            0 <= r < k,
            k > 0,
    ;
}

/// How many requests a worker sends from state `w` at time `now` when every
/// request takes `latency` nanoseconds and then succeeds (or, with `fails`,
/// fails), and every wait is exact.
pub open spec fn ideal_sends(w: PacerModel, now: nat, latency: nat, fails: bool) -> nat
    decreases run_measure(w, now),
{
    if w.delta == 0 {
        0
    } else {
        match w.next(now) {
            Action::Stop => 0,
            Action::Send { wait } => {
                let sent = (now + wait) as nat;
                let done = (sent + latency) as nat;
                let v = if fails {
                    w.after_next(now).after_failure(sent)
                } else {
                    w.after_next(now).after_success(sent)
                };
                proof {
                    lemma_up_iff_past_limit(w, now);
                    lemma_up_iff_past_limit(w, done);
                }
                1 + ideal_sends(v, done, latency, fails)
            },
        }
    }
}

/// Sends of a run in which each request succeeds after `latency`, counted
/// from a check at `t` no more than one interval after the last send.
proof fn lemma_run_from_check(w: PacerModel, t: nat, latency: nat)
    requires
        w.delta >= 1,
        latency < w.delta,
        w.status is Running,
        w.last_request <= t < w.last_request + w.delta,
    ensures
        ideal_sends(w, t, latency, false) == if t >= limit(w) {
            0
        } else if limit(w) >= w.last_request + latency + 1 {
            1 + ((limit(w) - w.last_request - latency - 1) as nat) / (w.delta as nat)
        } else {
            1
        },
    decreases (if t < limit(w) {
        limit(w) - t
    } else {
        0
    }),
{
    lemma_up_iff_past_limit(w, t);
    if t < limit(w) {
        let d = w.delta as int;
        let s = w.last_request;
        let sent = (s + w.delta) as nat;
        let done = (sent + latency) as nat;
        let v = w.after_next(t).after_success(sent);
        lemma_run_from_check(v, done, latency);
        let x = limit(w) - s - latency - 1;
        if done >= limit(w) {
            if x >= 0 {
                lemma_basic_div(x, d);
            }
        } else {
            lemma_div_plus_one(x - d, d);
        }
    }
}

/// An interval rounded up covers at least its share of a second.
proof fn lemma_interval_covers_second(rate: nat)
    requires
        rate > 0,
    ensures
        interval_for(rate) * rate >= NANOS_PER_SEC,
        1 <= interval_for(rate) <= NANOS_PER_SEC,
{
    let k = (NANOS_PER_SEC - 1) as int;
    let r = rate as int;
    lemma_fundamental_div_mod(k, r);
    let q = k / r;
    let m = k % r;
    lemma_div_is_ordered(k, k, r);
    assert((q + 1) * r >= k + 1) by (nonlinear_arith)
        requires
            k == r * q + m,
            0 <= m < r,
    ;
    assert(q <= k) by (nonlinear_arith)
        requires
            k == r * q + m,
            0 <= m,
            r >= 1,
            k >= 0,
    ;
}

/// Against an endpoint that always succeeds after a fixed latency shorter
/// than the interval, a run at `rate` requests per second for `duration`
/// seconds sends at least `rate * duration - 1` and at most
/// `rate * duration + 1` requests. The lower bound asks that rounding the
/// interval up to whole nanoseconds, plus the last request's latency, stay
/// within two intervals over the run; it fails only at rates near a
/// billion per second.
pub proof fn lemma_ideal_run_count(
    rate: nat,
    duration: nat,
    latency: nat,
    policy: FailurePolicy,
)
    requires
        rate > 0,
        duration > 0,
        latency < interval_for(rate),
        (duration * rate - 2) * interval_for(rate) + latency < duration * NANOS_PER_SEC,
    ensures
        rate * duration - 1 <= ideal_sends(
            PacerModel::start(rate, duration, policy),
            0,
            latency,
            false,
        ) <= rate * duration + 1,
{
    let w = PacerModel::start(rate, duration, policy);
    lemma_interval_covers_second(rate);
    let d = interval_for(rate) as int;
    let t = limit(w) as int;
    let n = (duration * rate) as int;
    let l = latency as int;
    assert(t >= NANOS_PER_SEC) by (nonlinear_arith)
        requires
            t == duration * NANOS_PER_SEC,
            duration >= 1,
    ;
    lemma_run_from_check(w, 0, latency);
    let c = ideal_sends(w, 0, latency, false) as int;
    assert(t - 1 < n * d) by (nonlinear_arith)
        requires
            t == duration * NANOS_PER_SEC,
            n == duration * rate,
            d * rate >= NANOS_PER_SEC,
            duration >= 1,
    ;
    lemma_div_by_multiple_is_strongly_ordered(t - 1, n * d, n, d);
    lemma_div_by_multiple(n, d);
    if t >= l + 1 {
        lemma_div_is_ordered(t - l - 1, t - 1, d);
        assert(c == 1 + (t - l - 1) / d);
    }
    assert((t - 1) / d < n);
    assert(c <= n);
    if n >= 2 {
        assert((n - 2) * d <= t - l - 1);
        lemma_div_is_ordered((n - 2) * d, t - l - 1, d);
        lemma_div_by_multiple(n - 2, d);
        assert((t - l - 1) / d >= n - 2);
    }
    assert(rate * duration == n) by (nonlinear_arith)
        requires
            n == duration * rate,
    ;
}

/// Under `StopTarget`, a target whose requests all fail is sent exactly one
/// request, while a second target that always succeeds, run beside it with
/// its own worker, sends as many as it would alone: the workers share no
/// state, so the first one's failure neither stalls nor stops the second.
pub proof fn lemma_failing_target_isolated(
    rate: nat,
    duration: nat,
    failing_latency: nat,
    latency: nat,
)
    requires
        rate > 0,
        duration > 0,
        latency < interval_for(rate),
        (duration * rate - 2) * interval_for(rate) + latency < duration * NANOS_PER_SEC,
    ensures
        ideal_sends(
            PacerModel::start(rate, duration, FailurePolicy::StopTarget),
            0,
            failing_latency,
            true,
        ) == 1,
        rate * duration - 1 <= ideal_sends(
            PacerModel::start(rate, duration, FailurePolicy::StopTarget),
            0,
            latency,
            false,
        ) <= rate * duration + 1,
{
    let w = PacerModel::start(rate, duration, FailurePolicy::StopTarget);
    lemma_interval_covers_second(rate);
    assert(limit(w) >= NANOS_PER_SEC) by (nonlinear_arith)
        requires
            limit(w) == duration * NANOS_PER_SEC,
            duration >= 1,
    ;
    lemma_up_iff_past_limit(w, 0);
    let sent = w.delta as nat;
    let v = w.after_next(0).after_failure(sent);
    lemma_failed_worker_stays_stopped(v, (sent + failing_latency) as nat, failing_latency);
    lemma_ideal_run_count(rate, duration, latency, FailurePolicy::StopTarget);
}

/// However long a request takes, the next send of the same worker comes at
/// least one interval after it: after the request sent at `sent` succeeded
/// (or failed, with `failed`), a decision at any later `now` sends no
/// earlier than `sent` plus the interval.
pub proof fn lemma_send_gap(w: PacerModel, sent: nat, now: nat, failed: bool)
    requires
        sent <= now,
    ensures
        ({
            let v = if failed {
                w.after_failure(sent)
            } else {
                w.after_success(sent)
            };
            v.next(now) matches Action::Send { wait } ==> now + wait >= sent + w.delta
        }),
{
}

/// While the previous request is quicker than the interval, sends keep
/// exactly one interval apart: the decision at `now`, taken once the
/// request sent at `sent` is done, sends at `sent` plus the interval.
pub proof fn lemma_send_cadence(w: PacerModel, sent: nat, now: nat)
    requires
        sent <= now < sent + w.delta,
        w.after_success(sent).next(now) is Send,
    ensures
        w.after_success(sent).next(now) matches Action::Send { wait } ==> now + wait == sent
            + w.delta,
{
}

/// Under `StopTarget`, a failed request leaves the worker failed.
pub proof fn lemma_failure_stops_target(w: PacerModel, failed_at: nat)
    requires
        w.policy is StopTarget,
    ensures
        w.after_failure(failed_at).status is Failed,
{
}

/// A failed worker sends nothing more: every decision is to stop, no later
/// step brings it back, and a run from there sends no request.
pub proof fn lemma_failed_worker_stays_stopped(w: PacerModel, now: nat, latency: nat)
    requires
        w.status is Failed,
    ensures
        w.next(now) is Stop,
        w.after_next(now).status is Failed,
        w.after_success(now).status is Failed,
        w.after_failure(now).status is Failed,
        ideal_sends(w, now, latency, false) == 0,
        ideal_sends(w, now, latency, true) == 0,
{
}

} // verus!
