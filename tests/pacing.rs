use papillon::{plan_run, Action, FailurePolicy, RunError, TargetWorker, WorkerStatus};

const SEC: u64 = 1_000_000_000;
const MS: u64 = 1_000_000;

/// Runs a worker on a virtual clock where each request takes `latency` and
/// fails from the `fail_from`-th attempt on; returns the send instants.
fn simulate(worker: &mut TargetWorker, latency: u64, fail_from: Option<usize>) -> Vec<u64> {
    let mut now = 0u64;
    let mut sends = Vec::new();
    loop {
        match worker.next_action(now) {
            Action::Stop => break,
            Action::Send { wait } => {
                now += wait;
                let sent = now;
                sends.push(sent);
                now += latency;
                if fail_from.map_or(false, |k| sends.len() > k) {
                    worker.record_failure(sent);
                } else {
                    worker.record_success(sent);
                }
            }
        }
        assert!(sends.len() < 1_000_000);
    }
    sends
}

#[test]
fn run_checks() {
    assert_eq!(plan_run(0, 3), Err(RunError::ZeroRate));
    assert_eq!(plan_run(0, 0), Err(RunError::ZeroRate));
    assert_eq!(plan_run(5, 0), Err(RunError::NoTargets));
    assert_eq!(plan_run(10, 1), Ok(100 * MS));
    assert_eq!(plan_run(1, 2), Ok(SEC));
    assert_eq!(plan_run(3, 1), Ok(333_333_334));
    assert_eq!(plan_run(2_000_000_000, 1), Ok(1));
}

#[test]
fn instant_endpoint_rate_ten_for_two_seconds() {
    let mut w = TargetWorker::new(10, 2, FailurePolicy::StopTarget);
    let sends = simulate(&mut w, 0, None);
    assert_eq!(sends.len(), 20);
    assert_eq!(w.status(), WorkerStatus::Completed);
}

#[test]
fn instant_endpoint_counts_within_one() {
    for (rate, duration) in [(1u64, 1u64), (3, 2), (7, 3), (100, 1), (13, 5)] {
        let mut w = TargetWorker::new(rate, duration, FailurePolicy::StopTarget);
        let n = simulate(&mut w, 0, None).len() as u64;
        assert!(n + 1 >= rate * duration, "rate {rate} duration {duration}: {n}");
        assert!(n <= rate * duration + 1, "rate {rate} duration {duration}: {n}");
    }
}

#[test]
fn latency_below_interval_keeps_cadence() {
    let mut w = TargetWorker::new(10, 2, FailurePolicy::StopTarget);
    let sends = simulate(&mut w, 50 * MS, None);
    assert_eq!(sends.len(), 20);
    for pair in sends.windows(2) {
        assert_eq!(pair[1] - pair[0], 100 * MS);
    }
}

#[test]
fn latency_within_one_of_rate_times_duration() {
    for (rate, duration, latency) in [(10u64, 2u64, 99 * MS), (3, 2, 300 * MS), (7, 3, 1), (13, 5, 70 * MS)] {
        let mut w = TargetWorker::new(rate, duration, FailurePolicy::StopTarget);
        let n = simulate(&mut w, latency, None).len() as u64;
        assert!(n + 1 >= rate * duration, "rate {rate} duration {duration}: {n}");
        assert!(n <= rate * duration + 1, "rate {rate} duration {duration}: {n}");
    }
}

#[test]
fn slow_requests_space_sends_by_latency() {
    let mut w = TargetWorker::new(10, 2, FailurePolicy::StopTarget);
    let sends = simulate(&mut w, 250 * MS, None);
    assert_eq!(sends.len(), 8);
    for pair in sends.windows(2) {
        assert_eq!(pair[1] - pair[0], 250 * MS);
    }
}

#[test]
fn gaps_never_shorter_than_interval() {
    for latency in [0u64, 30 * MS, 100 * MS, 250 * MS] {
        let mut w = TargetWorker::new(10, 2, FailurePolicy::StopTarget);
        let sends = simulate(&mut w, latency, None);
        for pair in sends.windows(2) {
            assert!(pair[1] - pair[0] >= 100 * MS);
        }
    }
}

#[test]
fn slow_request_leaves_no_wait() {
    let mut w = TargetWorker::new(10, 2, FailurePolicy::StopTarget);
    assert_eq!(w.next_action(0), Action::Send { wait: 100 * MS });
    w.record_success(400 * MS);
    assert_eq!(w.next_action(550 * MS), Action::Send { wait: 0 });
    assert_eq!(w.next_action(420 * MS), Action::Send { wait: 80 * MS });
    assert_eq!(w.next_action(300 * MS), Action::Send { wait: 100 * MS });
}

#[test]
fn time_limit_checked_in_whole_seconds() {
    let mut w = TargetWorker::new(1, 2, FailurePolicy::StopTarget);
    assert!(matches!(w.next_action(2 * SEC - 1), Action::Send { .. }));
    assert_eq!(w.status(), WorkerStatus::Running);
    assert_eq!(w.next_action(2 * SEC), Action::Stop);
    assert_eq!(w.status(), WorkerStatus::Completed);
    assert_eq!(w.next_action(0), Action::Stop);
}

#[test]
fn failing_target_stops_after_first_failure() {
    let mut failing = TargetWorker::new(10, 2, FailurePolicy::StopTarget);
    let mut healthy = TargetWorker::new(10, 2, FailurePolicy::StopTarget);
    let failed_sends = simulate(&mut failing, 30 * MS, Some(0));
    let healthy_sends = simulate(&mut healthy, 30 * MS, None);
    assert_eq!(failed_sends.len(), 1);
    assert_eq!(failing.status(), WorkerStatus::Failed);
    assert_eq!(failing.next_action(0), Action::Stop);
    assert_eq!(healthy_sends.len(), 20);
}

#[test]
fn keep_going_policy_continues_after_failures() {
    let mut w = TargetWorker::new(10, 2, FailurePolicy::KeepGoing);
    let sends = simulate(&mut w, 0, Some(3));
    assert_eq!(sends.len(), 20);
    assert_eq!(w.status(), WorkerStatus::Completed);
}

#[test]
fn zero_duration_sends_nothing() {
    let mut w = TargetWorker::new(10, 0, FailurePolicy::StopTarget);
    assert_eq!(w.next_action(0), Action::Stop);
    assert_eq!(w.delta(), 100 * MS);
}
