use predmarket::circuit_breaker::{CircuitBreaker, CircuitError, CircuitState};

const SEC: u64 = 1_000_000_000;

#[test]
fn opens_after_threshold_failures() {
    let mut b = CircuitBreaker::new(3, 30);
    assert_eq!(b.state(), CircuitState::Closed);
    for i in 0..2 {
        assert_eq!(b.allow_call(i), Ok(()));
        assert_eq!(b.complete(false, i), Err(CircuitError::Underlying));
        assert_eq!(b.state(), CircuitState::Closed);
    }
    assert_eq!(b.allow_call(2), Ok(()));
    b.on_failure(2);
    assert_eq!(b.state(), CircuitState::Open);
    assert_eq!(b.allow_call(3), Err(CircuitError::Open));
}

#[test]
fn recovers_through_one_trial() {
    let mut b = CircuitBreaker::new(1, 30);
    b.on_failure(0);
    assert_eq!(b.state(), CircuitState::Open);
    assert_eq!(b.allow_call(29 * SEC), Err(CircuitError::Open));
    assert_eq!(b.allow_call(30 * SEC), Ok(()));
    assert_eq!(b.state(), CircuitState::HalfOpen);
    assert_eq!(b.allow_call(30 * SEC), Ok(()));
    assert_eq!(b.allow_call(30 * SEC), Err(CircuitError::Open));
    assert_eq!(b.complete(true, 31 * SEC), Ok(()));
    assert_eq!(b.state(), CircuitState::Closed);
    assert_eq!(b.failure_count, 0);
}

#[test]
fn failed_trial_reopens() {
    let mut b = CircuitBreaker::new(1, 1);
    b.on_failure(0);
    assert_eq!(b.allow_call(SEC), Ok(()));
    b.on_failure(SEC);
    assert_eq!(b.state(), CircuitState::Open);
    assert_eq!(b.allow_call(SEC + 1), Err(CircuitError::Open));
}

#[test]
fn success_while_closed_keeps_count() {
    let mut b = CircuitBreaker::new(5, 1);
    b.on_failure(0);
    b.on_success();
    assert_eq!(b.failure_count, 1);
    assert_eq!(b.state(), CircuitState::Closed);
}

#[test]
fn error_messages() {
    assert_eq!(CircuitError::Open.message(), "circuit breaker open");
    assert_eq!(CircuitError::Underlying.message(), "underlying operation failed");
}

#[test]
fn refused_calls_do_not_run_the_work() {
    let mut b = CircuitBreaker::new(1, 30);
    b.on_failure(0);
    let mut ran = false;
    let r = match b.allow_call(SEC) {
        Ok(()) => {
            ran = true;
            b.complete(true, SEC)
        }
        Err(e) => Err(e),
    };
    assert!(!ran);
    assert_eq!(r, Err(CircuitError::Open));
    let r = match b.allow_call(30 * SEC) {
        Ok(()) => {
            ran = true;
            b.complete(false, 30 * SEC)
        }
        Err(e) => Err(e),
    };
    assert!(ran);
    assert_eq!(r, Err(CircuitError::Underlying));
    assert_eq!(b.state(), CircuitState::Open);
}
