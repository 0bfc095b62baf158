//! A circuit breaker guarding calls to an unreliable service.
//!
//! The breaker decides; the caller runs the guarded operation.  A call goes
//! through `allow_call` (may the operation run now?), then the caller reports the
//! outcome with `on_success` or `on_failure`.  Times are monotonic
//! nanoseconds supplied by the caller.
use vstd::prelude::*;

verus! {

#[derive(Clone, Copy, Debug, PartialEq, Eq, Structural)]
pub enum CircuitState {
    Closed,
    Open,
    HalfOpen,
}

#[derive(Clone, Copy, Debug, PartialEq, Eq, Structural)]
pub enum CircuitError {
    /// The breaker refused the call.
    Open,
    /// The guarded operation failed.
    Underlying,
}

impl CircuitError {
    /// The text of the error, as displayed.
    pub fn message(&self) -> (r: &'static str)
        ensures
            *self == CircuitError::Open ==> r@ == "circuit breaker open"@,
            *self == CircuitError::Underlying ==> r@ == "underlying operation failed"@,
    {
        match self {
            CircuitError::Open => "circuit breaker open",
            CircuitError::Underlying => "underlying operation failed",
        }
    }
}

/// Nanoseconds in a second.
pub const NANOS_PER_SEC: u128 = 1_000_000_000u128;

#[derive(Clone, Copy, Debug, PartialEq, Eq, Structural)]
pub struct CircuitBreaker {
    pub failure_threshold: u32,
    /// How long the breaker stays open after the last failure, in seconds.
    pub recovery_secs: u64,
    /// Failures since the breaker last closed after a trial.
    pub failure_count: u32,
    /// When the last failure happened.
    pub last_failure: Option<u64>,
    pub state: CircuitState,
    /// Calls counted while half open.
    pub half_open_attempts: u32,
}

/// Whether the recovery period has passed at `now` since the last failure
/// (immediately so when no failure was recorded).
pub open spec fn recovery_elapsed(last: Option<u64>, recovery_secs: u64, now: u64) -> bool {
    match last {
        Some(t) => (if now >= t { now - t } else { 0int }) >= recovery_secs * NANOS_PER_SEC,
        None => true,
    }
}

impl CircuitBreaker {
    /// Outside the closed state the failure count has reached the threshold.
    pub open spec fn inv(&self) -> bool {
        self.state != CircuitState::Closed ==> self.failure_count >= self.failure_threshold
    }

    /// A closed breaker with no failures.
    pub open spec fn spec_new(failure_threshold: u32, recovery_secs: u64) -> CircuitBreaker {
        CircuitBreaker {
            failure_threshold,
            recovery_secs,
            failure_count: 0,
            last_failure: None,
            state: CircuitState::Closed,
            half_open_attempts: 0,
        }
    }

    /// The decision on a call at `now` and the breaker after it.
    ///
    /// Closed: the call may run.  Open: once the recovery period has passed
    /// the breaker turns half open, clears the trial counter and lets the call
    /// run; before that the call is refused.  Half open: the trial counter is
    /// bumped (wrapping) and the call is refused when it was already at least
    /// one.
    pub open spec fn allow_spec(self, now: u64) -> (CircuitBreaker, Result<(), CircuitError>) {
        match self.state {
            CircuitState::Closed => (self, Ok(())),
            CircuitState::Open => if recovery_elapsed(self.last_failure, self.recovery_secs, now) {
                (CircuitBreaker { state: CircuitState::HalfOpen, half_open_attempts: 0, ..self }, Ok(()))
            } else {
                (self, Err(CircuitError::Open))
            },
            CircuitState::HalfOpen => {
                let bumped = if self.half_open_attempts == u32::MAX {
                    0u32
                } else {
                    (self.half_open_attempts + 1) as u32
                };
                (
                    CircuitBreaker { half_open_attempts: bumped, ..self },
                    if self.half_open_attempts >= 1 {
                        Err(CircuitError::Open)
                    } else {
                        Ok(())
                    },
                )
            },
        }
    }

    /// The breaker after a successful call: a half-open breaker closes and
    /// forgets its failures; otherwise nothing changes.
    pub open spec fn success_spec(self) -> CircuitBreaker {
        if self.state == CircuitState::HalfOpen {
            CircuitBreaker { state: CircuitState::Closed, failure_count: 0, ..self }
        } else {
            self
        }
    }

    /// The breaker after a failed call at `now`: the failure is counted and
    /// timed, and the breaker opens once the count reaches the threshold.
    pub open spec fn failure_spec(self, now: u64) -> CircuitBreaker {
        let count = (self.failure_count + 1) as u32;
        CircuitBreaker {
            failure_count: count,
            last_failure: Some(now),
            state: if count >= self.failure_threshold {
                CircuitState::Open
            } else {
                self.state
            },
            ..self
        }
    }

    /// A closed breaker with no failures.
    pub fn new(failure_threshold: u32, recovery_secs: u64) -> (r: CircuitBreaker)
        ensures
            r == CircuitBreaker::spec_new(failure_threshold, recovery_secs),
            r.inv(),
    {
        CircuitBreaker {
            failure_threshold,
            recovery_secs,
            failure_count: 0,
            last_failure: None,
            state: CircuitState::Closed,
            half_open_attempts: 0,
        }
    }

    pub fn state(&self) -> (r: CircuitState)
        ensures
            r == self.state,
    {
        self.state
    }

    fn recovery_passed(&self, now: u64) -> (r: bool)
        ensures
            r == recovery_elapsed(self.last_failure, self.recovery_secs, now),
    {
        match self.last_failure {
            Some(t) => {
                let elapsed: u64 = if now >= t { now - t } else { 0 };
                (elapsed as u128) >= (self.recovery_secs as u128) * NANOS_PER_SEC
            },
            None => true,
        }
    }

    /// Decides whether a call may run at `now`; see `allow_spec`.
    pub fn allow_call(&mut self, now: u64) -> (r: Result<(), CircuitError>)
        requires
            old(self).inv(),
        ensures
            (*final(self), r) == old(self).allow_spec(now),
            final(self).inv(),
    {
        match self.state {
            CircuitState::Open => {
                if self.recovery_passed(now) {
                    self.state = CircuitState::HalfOpen;
                    self.half_open_attempts = 0;
                    Ok(())
                } else {
                    Err(CircuitError::Open)
                }
            },
            CircuitState::HalfOpen => {
                let attempts = self.half_open_attempts;
                self.half_open_attempts = attempts.wrapping_add(1);
                if attempts >= 1 {
                    Err(CircuitError::Open)
                } else {
                    Ok(())
                }
            },
            CircuitState::Closed => Ok(()),
        }
    }

    /// Records a successful call; see `success_spec`.
    pub fn on_success(&mut self)
        requires
            old(self).inv(),
        ensures
            *final(self) == old(self).success_spec(),
            final(self).inv(),
    {
        if self.state == CircuitState::HalfOpen {
            self.state = CircuitState::Closed;
            self.failure_count = 0;
        }
    }

    /// Records a failed call at `now`; see `failure_spec`.
    pub fn on_failure(&mut self, now: u64)
        requires
            old(self).inv(),
            old(self).failure_count < u32::MAX,
        ensures
            *final(self) == old(self).failure_spec(now),
            final(self).inv(),
    {
        let count = self.failure_count + 1;
        self.failure_count = count;
        self.last_failure = Some(now);
        if count >= self.failure_threshold {
            self.state = CircuitState::Open;
        }
    }

    /// Reports the outcome of an allowed call and gives the caller's result:
    /// `Ok(())` on success, `Err(Underlying)` on failure.
    pub fn complete(&mut self, succeeded: bool, now: u64) -> (r: Result<(), CircuitError>)
        requires
            old(self).inv(),
            !succeeded ==> old(self).failure_count < u32::MAX,
        ensures
            final(self).inv(),
            succeeded ==> r is Ok && *final(self) == old(self).success_spec(),
            !succeeded ==> r == Err::<(), CircuitError>(CircuitError::Underlying) && *final(self)
                == old(self).failure_spec(now),
    {
        if succeeded {
            self.on_success();
            Ok(())
        } else {
            self.on_failure(now);
            Err(CircuitError::Underlying)
        }
    }
}

/// The breaker after `k` consecutive failed calls at `now`.
pub open spec fn after_failures(b: CircuitBreaker, k: nat, now: u64) -> CircuitBreaker
    decreases k,
{
    if k == 0 {
        b
    } else {
        after_failures(b, (k - 1) as nat, now).failure_spec(now)
    }
}

proof fn lemma_after_failures_count(b: CircuitBreaker, k: nat, now: u64)
    requires
        b.failure_count + k <= u32::MAX,
    ensures
        after_failures(b, k, now).failure_count == b.failure_count + k,
        after_failures(b, k, now).failure_threshold == b.failure_threshold,
        b.state == CircuitState::Closed && k > 0 ==> (after_failures(b, k, now).state
            == CircuitState::Open <==> b.failure_count + k >= b.failure_threshold),
        b.state == CircuitState::Closed && k > 0 ==> (after_failures(b, k, now).state
            == CircuitState::Closed <==> b.failure_count + k < b.failure_threshold),
    decreases k,
{
    if k > 0 {
        lemma_after_failures_count(b, (k - 1) as nat, now);
    }
}

/// Every step keeps the breaker's invariant.
pub proof fn law_steps_keep_invariant(b: CircuitBreaker, now: u64)
    requires
        b.inv(),
    ensures
        b.allow_spec(now).0.inv(),
        b.success_spec().inv(),
        b.failure_count < u32::MAX ==> b.failure_spec(now).inv(),
{
}

/// A fresh breaker that sees `k` consecutive failures (`k > 0`) is open
/// exactly when `k` has reached the threshold, and closed otherwise.
pub proof fn law_consecutive_failures_open_at_threshold(
    failure_threshold: u32,
    recovery_secs: u64,
    k: nat,
    now: u64,
)
    requires
        0 < k <= u32::MAX,
    ensures
        after_failures(CircuitBreaker::spec_new(failure_threshold, recovery_secs), k, now).state
            == (if k >= failure_threshold {
            CircuitState::Open
        } else {
            CircuitState::Closed
        }),
{
    lemma_after_failures_count(CircuitBreaker::spec_new(failure_threshold, recovery_secs), k, now);
}

/// An open breaker refuses every call until the recovery period has passed,
/// and is left unchanged by the refusal.
pub proof fn law_open_refuses_until_recovery(b: CircuitBreaker, now: u64)
    requires
        b.state == CircuitState::Open,
        !recovery_elapsed(b.last_failure, b.recovery_secs, now),
    ensures
        b.allow_spec(now) == (b, Err::<(), CircuitError>(CircuitError::Open)),
{
}

/// Once the recovery period has passed an open breaker lets one trial call
/// through and turns half open; a second call while half open is let
/// through as well, and every later one is refused until an outcome arrives.
pub proof fn law_recovery_allows_trial(b: CircuitBreaker, now: u64, later: u64, latest: u64)
    requires
        b.state == CircuitState::Open,
        recovery_elapsed(b.last_failure, b.recovery_secs, now),
    ensures
        b.allow_spec(now).1 is Ok,
        b.allow_spec(now).0.state == CircuitState::HalfOpen,
        b.allow_spec(now).0.allow_spec(later).1 is Ok,
        b.allow_spec(now).0.allow_spec(later).0.allow_spec(latest).1 == Err::<(), CircuitError>(
            CircuitError::Open,
        ),
{
}

/// A successful trial closes a half-open breaker and clears its failures; a
/// failed trial opens it again.
pub proof fn law_trial_outcome(b: CircuitBreaker, now: u64)
    requires
        b.inv(),
        b.state == CircuitState::HalfOpen,
        b.failure_count < u32::MAX,
    ensures
        b.success_spec().state == CircuitState::Closed,
        b.success_spec().failure_count == 0,
        b.failure_spec(now).state == CircuitState::Open,
{
}

/// Success in the closed state changes nothing: failures are only cleared by
/// a successful trial.
pub proof fn law_closed_success_keeps_count(b: CircuitBreaker)
    requires
        b.state == CircuitState::Closed,
    ensures
        b.success_spec() == b,
{
}

/// A guarded call at `now`, made of an admission (`allow_call`) and, where
/// the call is let through, the guarded work with outcome `succeeded` and
/// its report at `done_at` (`complete`): the caller's result, the breaker
/// after the call, and whether the guarded work ran.
pub open spec fn guarded_call_spec(b: CircuitBreaker, now: u64, succeeded: bool, done_at: u64) -> (
    Result<(), CircuitError>,
    CircuitBreaker,
    bool,
) {
    let (b1, admitted) = b.allow_spec(now);
    match admitted {
        Err(e) => (Err(e), b1, false),
        Ok(()) => if succeeded {
            (Ok(()), b1.success_spec(), true)
        } else {
            (Err(CircuitError::Underlying), b1.failure_spec(done_at), true)
        },
    }
}

/// A guarded call runs its work at most once, and only when admitted; a
/// refused call is answered `Open` without running the work; an admitted
/// call that succeeds is answered `Ok`, one that fails is answered
/// `Underlying`; and the breaker keeps its invariant throughout.
pub proof fn law_guarded_call(b: CircuitBreaker, now: u64, succeeded: bool, done_at: u64)
    requires
        b.inv(),
        b.failure_count < u32::MAX,
    ensures
        ({
            let (r, after, ran) = guarded_call_spec(b, now, succeeded, done_at);
            &&& ran <==> b.allow_spec(now).1 is Ok
            &&& !ran ==> r == Err::<(), CircuitError>(CircuitError::Open) && after == b.allow_spec(now).0
            &&& ran && succeeded ==> r == Ok::<(), CircuitError>(())
            &&& ran && !succeeded ==> r == Err::<(), CircuitError>(CircuitError::Underlying)
            &&& b.allow_spec(now).0.inv()
            &&& after.inv()
        }),
{
}

} // verus!
