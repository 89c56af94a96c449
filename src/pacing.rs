//! The pacing decisions of one target's worker. The worker's loop (sleep,
//! send, read the clock) runs outside; it asks `next_action` what to do and
//! reports each finished request with the instant it was sent. Times are
//! nanoseconds since the worker started.

use vstd::prelude::*;

verus! {

pub const NANOS_PER_SEC: u64 = 1_000_000_000;

/// The pacing interval for `rate` requests per second: one second divided
/// by the rate, rounded up to whole nanoseconds, so that the cadence never
/// exceeds the rate.
pub open spec fn interval_for(rate: nat) -> nat
    recommends
        rate > 0,
{
    ((NANOS_PER_SEC - 1) as nat / rate) + 1
}

/// Why a run cannot start.
#[derive(Clone, Copy, Debug, PartialEq, Eq, Structural)]
pub enum RunError {
    /// The request rate is zero.
    ZeroRate,
    /// There is no target.
    NoTargets,
}

/// Checks that a run can start and returns its pacing interval.
pub fn plan_run(rps: u64, targets: usize) -> (r: Result<u64, RunError>)
    ensures
        rps == 0 ==> r == Err::<u64, RunError>(RunError::ZeroRate),
        rps > 0 && targets == 0 ==> r == Err::<u64, RunError>(RunError::NoTargets),
        rps > 0 && targets > 0 ==> r == Ok::<u64, RunError>(interval_for(rps as nat) as u64),
{
    if rps == 0 {
        Err(RunError::ZeroRate)
    } else if targets == 0 {
        Err(RunError::NoTargets)
    } else {
        Ok((NANOS_PER_SEC - 1) / rps + 1)
    }
}

/// What a worker does when a request fails to be built or sent.
#[derive(Clone, Copy, Debug, PartialEq, Eq, Structural)]
pub enum FailurePolicy {
    /// Issue no further requests against the target.
    StopTarget,
    /// Go on with the next request.
    KeepGoing,
}

#[derive(Clone, Copy, Debug, PartialEq, Eq, Structural)]
pub enum WorkerStatus {
    Running,
    Failed,
    Completed,
}

/// The worker's next step.
#[derive(Clone, Copy, Debug, PartialEq, Eq, Structural)]
pub enum Action {
    /// Wait `wait` nanoseconds, then send the next request.
    Send { wait: u64 },
    /// The worker is done with its target.
    Stop,
}

/// The state of a worker: its pacing interval, the run's duration in whole
/// seconds, when the last request was sent, its status and its policy.
pub struct PacerModel {
    pub delta: u64,
    pub duration: nat,
    pub last_request: nat,
    pub status: WorkerStatus,
    pub policy: FailurePolicy,
}

impl PacerModel {
    /// A worker at its start, at time zero.
    pub open spec fn start(rate: nat, duration: nat, policy: FailurePolicy) -> PacerModel {
        PacerModel {
            delta: interval_for(rate) as u64,
            duration,
            last_request: 0,
            status: WorkerStatus::Running,
            policy,
        }
    }

    /// The run's time is spent once its whole seconds reach the duration.
    pub open spec fn time_is_up(self, now: nat) -> bool {
        now / (NANOS_PER_SEC as nat) >= self.duration
    }

    /// Time since the last request was sent; zero if the clock reads earlier.
    pub open spec fn since_last(self, now: nat) -> nat {
        if now >= self.last_request {
            (now - self.last_request) as nat
        } else {
            0
        }
    }

    /// What the worker does at `now`: stop once it has failed, completed or
    /// spent its time; else wait out what is left of the interval since the
    /// last send (nothing, if a slow request used it up) and send, so that
    /// sends keep one interval apart whatever the latency.
    pub open spec fn next(self, now: nat) -> Action {
        if !(self.status is Running) || self.time_is_up(now) {
            Action::Stop
        } else if self.since_last(now) < self.delta {
            Action::Send { wait: (self.delta - self.since_last(now)) as u64 }
        } else {
            Action::Send { wait: 0 }
        }
    }

    /// The state after deciding at `now`: a running worker whose time is up
    /// has completed.
    pub open spec fn after_next(self, now: nat) -> PacerModel {
        if self.status is Running && self.time_is_up(now) {
            PacerModel { status: WorkerStatus::Completed, ..self }
        } else {
            self
        }
    }

    /// The state after the request sent at `sent` succeeded.
    pub open spec fn after_success(self, sent: nat) -> PacerModel {
        PacerModel { last_request: sent, ..self }
    }

    /// The state after the request sent at `sent` failed.
    pub open spec fn after_failure(self, sent: nat) -> PacerModel {
        PacerModel {
            last_request: sent,
            status: if self.policy is StopTarget {
                WorkerStatus::Failed
            } else {
                self.status
            },
            ..self
        }
    }
}

/// One target's pacing state.
pub struct TargetWorker {
    delta: u64,
    duration: u64,
    last_request: u64,
    status: WorkerStatus,
    policy: FailurePolicy,
}

impl View for TargetWorker {
    type V = PacerModel;

    closed spec fn view(&self) -> PacerModel {
        PacerModel {
            delta: self.delta,
            duration: self.duration as nat,
            last_request: self.last_request as nat,
            status: self.status,
            policy: self.policy,
        }
    }
}

impl TargetWorker {
    /// A worker for `rps` requests per second over `duration` seconds.
    pub fn new(rps: u64, duration: u64, policy: FailurePolicy) -> (r: TargetWorker)
        requires
            rps > 0,
        ensures
            r@ == PacerModel::start(rps as nat, duration as nat, policy),
    {
        TargetWorker {
            delta: (NANOS_PER_SEC - 1) / rps + 1,
            duration,
            last_request: 0,
            status: WorkerStatus::Running,
            policy,
        }
    }

    /// Decides the next step at time `now`.
    pub fn next_action(&mut self, now: u64) -> (r: Action)
        ensures
            r == old(self)@.next(now as nat),
            final(self)@ == old(self)@.after_next(now as nat),
    {
        if self.status != WorkerStatus::Running {
            return Action::Stop;
        }
        if now / NANOS_PER_SEC >= self.duration {
            self.status = WorkerStatus::Completed;
            return Action::Stop;
        }
        let since = if now >= self.last_request {
            now - self.last_request
        } else {
            0
        };
        if since < self.delta {
            Action::Send { wait: self.delta - since }
        } else {
            Action::Send { wait: 0 }
        }
    }

    /// Notes that the request sent at `sent` succeeded.
    pub fn record_success(&mut self, sent: u64)
        ensures
            final(self)@ == old(self)@.after_success(sent as nat),
    {
        self.last_request = sent;
    }

    /// Notes that the request sent at `sent` failed.
    pub fn record_failure(&mut self, sent: u64)
        ensures
            final(self)@ == old(self)@.after_failure(sent as nat),
    {
        self.last_request = sent;
        if self.policy == FailurePolicy::StopTarget {
            self.status = WorkerStatus::Failed;
        }
    }

    pub fn status(&self) -> (r: WorkerStatus)
        ensures
            r == self@.status,
    {
        self.status
    }

    /// The pacing interval in nanoseconds.
    pub fn delta(&self) -> (r: u64)
        ensures
            r == self@.delta,
    {
        self.delta
    }
}

} // verus!
