//! Circuit breaker: a failure-isolation state machine.
//!
//! One breaker guards one downstream dependency. While `Closed` it admits
//! every call and counts consecutive failures; once the count reaches the
//! failure threshold it turns `Open` and refuses calls until the recovery
//! timeout has elapsed, after which a single trial call is admitted
//! (`HalfOpen`). The outcome of that trial decides between returning to
//! `Closed` and reopening.
//!
//! Time is passed in explicitly as a millisecond reading, so every transition
//! is a pure function of the breaker state and the clock value.

use vstd::prelude::*;

verus! {

#[derive(Clone, Copy, Debug, PartialEq, Eq, Structural)]
pub enum CircuitBreakerState {
    Closed,
    Open,
    HalfOpen,
}

pub struct CircuitBreaker {
    pub failure_count: u32,
    pub failure_threshold: u32,
    pub recovery_timeout_ms: u64,
    pub last_failure_time_ms: Option<u64>,
    pub state: CircuitBreakerState,
}

/// The state of a freshly constructed breaker.
pub open spec fn breaker_new_spec(failure_threshold: u32, recovery_timeout_ms: u64) -> CircuitBreaker {
    CircuitBreaker {
        failure_count: 0,
        failure_threshold,
        recovery_timeout_ms,
        last_failure_time_ms: None,
        state: CircuitBreakerState::Closed,
    }
}

/// Whether the recovery timeout has elapsed since the recorded failure.
pub open spec fn recovery_elapsed(b: CircuitBreaker, now_ms: u64) -> bool {
    match b.last_failure_time_ms {
        Some(t) => now_ms >= t + b.recovery_timeout_ms,
        None => false,
    }
}

/// One `can_execute` call: the possibly-updated breaker and the verdict.
/// `Closed` always admits; `Open` admits exactly when the recovery timeout
/// has elapsed, turning `HalfOpen`; `HalfOpen` refuses (the one trial call
/// was already admitted by the transition out of `Open`).
pub open spec fn step_can_execute(b: CircuitBreaker, now_ms: u64) -> (CircuitBreaker, bool) {
    match b.state {
        CircuitBreakerState::Closed => (b, true),
        CircuitBreakerState::Open => {
            if recovery_elapsed(b, now_ms) {
                (CircuitBreaker { state: CircuitBreakerState::HalfOpen, ..b }, true)
            } else {
                (b, false)
            }
        },
        CircuitBreakerState::HalfOpen => (b, false),
    }
}

/// One `record_success` call. A success while `Closed` clears the failure
/// count; a success while `HalfOpen` closes the breaker and clears the
/// count; a success while `Open` (a call that was in flight when the breaker
/// tripped) changes nothing.
pub open spec fn step_success(b: CircuitBreaker) -> CircuitBreaker {
    match b.state {
        CircuitBreakerState::Closed => CircuitBreaker { failure_count: 0, ..b },
        CircuitBreakerState::HalfOpen => CircuitBreaker {
            failure_count: 0,
            state: CircuitBreakerState::Closed,
            ..b
        },
        CircuitBreakerState::Open => b,
    }
}

/// One `record_failure` call. While `Closed` the count rises (saturating);
/// reaching the threshold opens the breaker and records the failure time.
/// A failure while `HalfOpen` reopens the breaker with a fresh failure time;
/// a failure while `Open` refreshes the failure time.
pub open spec fn step_failure(b: CircuitBreaker, now_ms: u64) -> CircuitBreaker {
    match b.state {
        CircuitBreakerState::Closed => {
            let c = if b.failure_count == u32::MAX { u32::MAX } else { (b.failure_count + 1) as u32 };
            if c >= b.failure_threshold {
                CircuitBreaker {
                    failure_count: c,
                    last_failure_time_ms: Some(now_ms),
                    state: CircuitBreakerState::Open,
                    ..b
                }
            } else {
                CircuitBreaker { failure_count: c, ..b }
            }
        },
        CircuitBreakerState::HalfOpen => CircuitBreaker {
            last_failure_time_ms: Some(now_ms),
            state: CircuitBreakerState::Open,
            ..b
        },
        CircuitBreakerState::Open => CircuitBreaker { last_failure_time_ms: Some(now_ms), ..b },
    }
}

/// The breaker after `n` consecutive `record_failure` calls at time `now_ms`.
pub open spec fn after_failures(b: CircuitBreaker, now_ms: u64, n: nat) -> CircuitBreaker
    decreases n,
{
    if n == 0 {
        b
    } else {
        step_failure(after_failures(b, now_ms, (n - 1) as nat), now_ms)
    }
}

impl CircuitBreaker {
    pub fn new(failure_threshold: u32, recovery_timeout_ms: u64) -> (b: CircuitBreaker)
        ensures
            b == breaker_new_spec(failure_threshold, recovery_timeout_ms),
    {
        CircuitBreaker {
            failure_count: 0,
            failure_threshold,
            recovery_timeout_ms,
            last_failure_time_ms: None,
            state: CircuitBreakerState::Closed,
        }
    }

    /// Ask whether a call may go downstream now. May move the breaker from
    /// `Open` to `HalfOpen` when the recovery timeout has elapsed.
    pub fn can_execute(&mut self, now_ms: u64) -> (allowed: bool)
        ensures
            *final(self) == step_can_execute(*old(self), now_ms).0,
            allowed == step_can_execute(*old(self), now_ms).1,
    {
        match self.state {
            CircuitBreakerState::Closed => true,
            CircuitBreakerState::Open => {
                let elapsed = match self.last_failure_time_ms {
                    Some(t) => now_ms >= t && now_ms - t >= self.recovery_timeout_ms,
                    None => false,
                };
                if elapsed {
                    self.state = CircuitBreakerState::HalfOpen;
                    true
                } else {
                    false
                }
            },
            CircuitBreakerState::HalfOpen => false,
        }
    }

    /// Record that a downstream call completed successfully.
    pub fn record_success(&mut self)
        ensures
            *final(self) == step_success(*old(self)),
    {
        match self.state {
            CircuitBreakerState::Closed => {
                self.failure_count = 0;
            },
            CircuitBreakerState::HalfOpen => {
                self.failure_count = 0;
                self.state = CircuitBreakerState::Closed;
            },
            CircuitBreakerState::Open => {},
        }
    }

    /// Record that a downstream call failed at time `now_ms`.
    pub fn record_failure(&mut self, now_ms: u64)
        ensures
            *final(self) == step_failure(*old(self), now_ms),
    {
        match self.state {
            CircuitBreakerState::Closed => {
                let c = if self.failure_count == u32::MAX {
                    u32::MAX
                } else {
                    self.failure_count + 1
                };
                self.failure_count = c;
                if c >= self.failure_threshold {
                    self.last_failure_time_ms = Some(now_ms);
                    self.state = CircuitBreakerState::Open;
                }
            },
            CircuitBreakerState::HalfOpen => {
                self.last_failure_time_ms = Some(now_ms);
                self.state = CircuitBreakerState::Open;
            },
            CircuitBreakerState::Open => {
                self.last_failure_time_ms = Some(now_ms);
            },
        }
    }
}

/// Law: from a fresh breaker, consecutive failures leave the breaker `Closed`
/// with an exact count while the count is below the threshold, and the
/// failure that reaches the threshold opens it, recording the failure time.
pub proof fn lemma_breaker_opens_at_threshold(failure_threshold: u32, recovery_timeout_ms: u64, now_ms: u64, n: nat)
    requires
        1 <= failure_threshold,
        n <= failure_threshold,
    ensures
        n < failure_threshold ==> after_failures(
            breaker_new_spec(failure_threshold, recovery_timeout_ms),
            now_ms,
            n,
        ) == (CircuitBreaker {
            failure_count: n as u32,
            failure_threshold,
            recovery_timeout_ms,
            last_failure_time_ms: None,
            state: CircuitBreakerState::Closed,
        }),
        n == failure_threshold ==> after_failures(
            breaker_new_spec(failure_threshold, recovery_timeout_ms),
            now_ms,
            n,
        ) == (CircuitBreaker {
            failure_count: failure_threshold,
            failure_threshold,
            recovery_timeout_ms,
            last_failure_time_ms: Some(now_ms),
            state: CircuitBreakerState::Open,
        }),
    decreases n,
{
    if n > 0 {
        lemma_breaker_opens_at_threshold(failure_threshold, recovery_timeout_ms, now_ms, (n - 1) as nat);
    }
}

/// Law: while `Open`, `can_execute` refuses until the recovery timeout has
/// elapsed; once it has, exactly one call is admitted (the breaker turns
/// `HalfOpen`, where further `can_execute` calls refuse). A success recorded
/// in `HalfOpen` closes the breaker with the count cleared; a failure
/// recorded in `HalfOpen` reopens it with a fresh failure time.
pub proof fn lemma_breaker_recovery(b: CircuitBreaker, probe_ms: u64, retry_ms: u64)
    requires
        b.state == CircuitBreakerState::Open,
        b.last_failure_time_ms is Some,
    ensures
        probe_ms < b.last_failure_time_ms->Some_0 + b.recovery_timeout_ms ==> step_can_execute(
            b,
            probe_ms,
        ) == (b, false),
        probe_ms >= b.last_failure_time_ms->Some_0 + b.recovery_timeout_ms ==> {
            let half = step_can_execute(b, probe_ms).0;
            &&& step_can_execute(b, probe_ms).1 == true
            &&& half.state == CircuitBreakerState::HalfOpen
            &&& step_can_execute(half, probe_ms).1 == false
            &&& step_success(half).state == CircuitBreakerState::Closed
            &&& step_success(half).failure_count == 0
            &&& step_failure(half, retry_ms).state == CircuitBreakerState::Open
            &&& step_failure(half, retry_ms).last_failure_time_ms == Some(retry_ms)
        },
{
}

/// Law: a `Closed` breaker admits every call without changing state, and a
/// success recorded while `Closed` clears the failure count.
pub proof fn lemma_breaker_closed_admits(b: CircuitBreaker, now_ms: u64)
    requires
        b.state == CircuitBreakerState::Closed,
    ensures
        step_can_execute(b, now_ms) == (b, true),
        step_success(b).failure_count == 0,
        step_success(b).state == CircuitBreakerState::Closed,
{
}

} // verus!
