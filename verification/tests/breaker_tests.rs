use geospatial::circuit_breaker::{BreakerPhase, CircuitBreaker};
use geospatial::error::ApiError;

#[test]
fn test_breaker_trips_after_threshold_and_recovers() {
    let mut breaker = CircuitBreaker::new(3, 1000);
    let mut now: u64 = 0;

    // Failures below the threshold leave the breaker closed.
    for _ in 0..2 {
        assert!(breaker.try_admit(now));
        breaker.record_failure(now);
        assert_eq!(breaker.phase, BreakerPhase::Closed);
    }

    // Exactly the third consecutive failure trips it open.
    assert!(breaker.try_admit(now));
    breaker.record_failure(now);
    assert_eq!(breaker.phase, BreakerPhase::Open);

    // While open and within the reset timeout, calls are declined
    // without the operation being invoked.
    now = 999;
    assert!(!breaker.try_admit(now));
    assert!(matches!(breaker.preflight(now), Err(ApiError::CircuitOpen)));

    // After the timeout the next call is admitted as a half-open probe.
    now = 1000;
    assert!(breaker.try_admit(now));
    assert_eq!(breaker.phase, BreakerPhase::HalfOpen);

    // A successful probe closes the breaker and resets the count.
    breaker.record_success();
    assert_eq!(breaker.phase, BreakerPhase::Closed);
    assert_eq!(breaker.failure_count, 0);
}

#[test]
fn test_half_open_admits_one_probe_at_a_time() {
    let mut breaker = CircuitBreaker::new(1, 100);
    breaker.try_admit(0);
    breaker.record_failure(0);
    assert_eq!(breaker.phase, BreakerPhase::Open);

    assert!(breaker.try_admit(100)); // the probe slot
    assert_eq!(breaker.phase, BreakerPhase::HalfOpen);
    assert!(!breaker.try_admit(100)); // declined while the probe is in flight
    assert!(!breaker.try_admit(150));
}

#[test]
fn test_half_open_failure_reopens() {
    let mut breaker = CircuitBreaker::new(2, 50);
    breaker.try_admit(0);
    breaker.record_failure(0);
    breaker.try_admit(1);
    breaker.record_failure(1);
    assert_eq!(breaker.phase, BreakerPhase::Open);

    assert!(breaker.try_admit(51));
    assert_eq!(breaker.phase, BreakerPhase::HalfOpen);
    breaker.record_failure(51);
    assert_eq!(breaker.phase, BreakerPhase::Open);

    // The clock restarts from the new failure.
    assert!(!breaker.try_admit(100));
    assert!(breaker.try_admit(101));
}

#[test]
fn test_success_while_closed_keeps_counting() {
    // A success while closed deliberately does not reset the counter:
    // only a half-open success fully recovers the breaker.
    let mut breaker = CircuitBreaker::new(3, 100);
    breaker.try_admit(0);
    breaker.record_failure(0);
    breaker.try_admit(1);
    breaker.record_failure(1);
    breaker.try_admit(2);
    breaker.record_success();
    assert_eq!(breaker.failure_count, 2);

    breaker.try_admit(3);
    breaker.record_failure(3);
    assert_eq!(breaker.phase, BreakerPhase::Open);
}
