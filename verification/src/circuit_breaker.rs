//! A circuit breaker guarding calls to an unreliable dependency.
//!
//! The breaker counts consecutive failures while closed, declines calls
//! outright while open, and after a reset timeout admits a single probe
//! call; a successful probe closes it again. Time enters as an explicit
//! millisecond timestamp, so every transition is a pure function of state
//! and clock; the caller performs the protected operation itself between
//! `try_admit` and `record_success` / `record_failure`.

use vstd::prelude::*;
use crate::error::ApiError;

verus! {

/// The phase of a breaker: calls pass through while `Closed`, are declined
/// while `Open`, and a single probe is admitted while `HalfOpen`.
#[derive(Clone, Copy, PartialEq, Eq, Structural, Debug)]
pub enum BreakerPhase {
    Closed,
    Open,
    HalfOpen,
}

/// The whole state of one breaker instance, shared by all callers of one
/// protected dependency.
#[derive(Clone, Copy, Debug)]
pub struct CircuitBreaker {
    /// Consecutive failures at which the breaker trips open.
    pub failure_threshold: u64,
    /// Milliseconds the breaker stays open before admitting a probe.
    pub reset_timeout_ms: u64,
    /// Consecutive failures seen since the breaker last fully recovered.
    pub failure_count: u64,
    /// When the most recent failure was recorded.
    pub last_failure_at: Option<u64>,
    pub phase: BreakerPhase,
    /// Whether a half-open probe has been admitted and not yet resolved;
    /// gates half-open admission to one call at a time.
    pub probe_in_flight: bool,
}

/// The state of a freshly constructed breaker.
pub open spec fn spec_new_breaker(failure_threshold: u64, reset_timeout_ms: u64) -> CircuitBreaker {
    CircuitBreaker {
        failure_threshold,
        reset_timeout_ms,
        failure_count: 0,
        last_failure_at: None,
        phase: BreakerPhase::Closed,
        probe_in_flight: false,
    }
}

/// Whether an open breaker has waited out its reset timeout at `now`.
pub open spec fn ready_to_probe(cb: CircuitBreaker, now: u64) -> bool {
    cb.phase == BreakerPhase::Open && (cb.last_failure_at matches Some(t) && now - t
        >= cb.reset_timeout_ms)
}

/// One evaluation of the breaker's phase: an open breaker whose reset
/// timeout has elapsed is promoted to half-open; nothing else changes.
pub open spec fn spec_poll(cb: CircuitBreaker, now: u64) -> CircuitBreaker {
    if ready_to_probe(cb, now) {
        CircuitBreaker { phase: BreakerPhase::HalfOpen, ..cb }
    } else {
        cb
    }
}

/// One admission decision at `now`: the state after it and whether the
/// call may proceed. Closed admits; open declines; half-open admits one
/// probe at a time.
pub open spec fn spec_admit(cb: CircuitBreaker, now: u64) -> (CircuitBreaker, bool) {
    let p = spec_poll(cb, now);
    match p.phase {
        BreakerPhase::Closed => (p, true),
        BreakerPhase::Open => (p, false),
        BreakerPhase::HalfOpen => if p.probe_in_flight {
            (p, false)
        } else {
            (CircuitBreaker { probe_in_flight: true, ..p }, true)
        },
    }
}

/// The state after a successful call: a half-open success fully recovers
/// the breaker (closed, count reset); a success while closed deliberately
/// leaves the count alone.
pub open spec fn spec_record_success(cb: CircuitBreaker) -> CircuitBreaker {
    if cb.phase == BreakerPhase::HalfOpen {
        CircuitBreaker {
            phase: BreakerPhase::Closed,
            failure_count: 0,
            probe_in_flight: false,
            ..cb
        }
    } else {
        cb
    }
}

/// The state after a failed call at `now`: the count advances (saturating)
/// and the time is recorded; reaching the threshold, or failing the
/// half-open probe, trips the breaker open.
pub open spec fn spec_record_failure(cb: CircuitBreaker, now: u64) -> CircuitBreaker {
    let count: u64 = if cb.failure_count == u64::MAX {
        cb.failure_count
    } else {
        (cb.failure_count + 1) as u64
    };
    let tripped = cb.phase == BreakerPhase::HalfOpen || count >= cb.failure_threshold;
    CircuitBreaker {
        failure_count: count,
        last_failure_at: Some(now),
        phase: if tripped {
            BreakerPhase::Open
        } else {
            cb.phase
        },
        probe_in_flight: false,
        ..cb
    }
}

impl CircuitBreaker {
    /// A fresh breaker: closed, with no failures recorded.
    pub fn new(failure_threshold: u64, reset_timeout_ms: u64) -> (cb: Self)
        ensures
            cb == spec_new_breaker(failure_threshold, reset_timeout_ms),
    {
        CircuitBreaker {
            failure_threshold,
            reset_timeout_ms,
            failure_count: 0,
            last_failure_at: None,
            phase: BreakerPhase::Closed,
            probe_in_flight: false,
        }
    }

    /// The breaker's phase at `now`. Evaluating the phase may itself move
    /// an open breaker to half-open once the reset timeout has elapsed.
    pub fn get_state(&mut self, now: u64) -> (phase: BreakerPhase)
        ensures
            *final(self) == spec_poll(*old(self), now),
            phase == final(self).phase,
    {
        if self.phase == BreakerPhase::Open {
            if let Some(t) = self.last_failure_at {
                if now >= t && now - t >= self.reset_timeout_ms {
                    self.phase = BreakerPhase::HalfOpen;
                }
            }
        }
        self.phase
    }

    /// Decides whether a call may proceed at `now`, and reserves the
    /// half-open probe slot when it grants one.
    pub fn try_admit(&mut self, now: u64) -> (admitted: bool)
        ensures
            (*final(self), admitted) == spec_admit(*old(self), now),
    {
        let phase = self.get_state(now);
        match phase {
            BreakerPhase::Closed => true,
            BreakerPhase::Open => false,
            BreakerPhase::HalfOpen => {
                if self.probe_in_flight {
                    false
                } else {
                    self.probe_in_flight = true;
                    true
                }
            },
        }
    }

    /// Like `try_admit`, surfaced as this layer's error taxonomy: a
    /// declined call fails with the circuit-open kind, and the protected
    /// operation is never invoked.
    pub fn preflight(&mut self, now: u64) -> (r: Result<(), ApiError>)
        ensures
            *final(self) == spec_admit(*old(self), now).0,
            r is Ok <==> spec_admit(*old(self), now).1,
            r matches Err(e) ==> e is CircuitOpen,
    {
        if self.try_admit(now) {
            Ok(())
        } else {
            Err(ApiError::CircuitOpen)
        }
    }

    /// Records that the admitted call succeeded.
    pub fn record_success(&mut self)
        ensures
            *final(self) == spec_record_success(*old(self)),
    {
        if self.phase == BreakerPhase::HalfOpen {
            self.phase = BreakerPhase::Closed;
            self.failure_count = 0;
            self.probe_in_flight = false;
        }
    }

    /// Records that the admitted call failed at `now`.
    pub fn record_failure(&mut self, now: u64)
        ensures
            *final(self) == spec_record_failure(*old(self), now),
    {
        if self.failure_count < u64::MAX {
            self.failure_count = self.failure_count + 1;
        }
        self.last_failure_at = Some(now);
        if self.phase == BreakerPhase::HalfOpen || self.failure_count >= self.failure_threshold {
            self.phase = BreakerPhase::Open;
        }
        self.probe_in_flight = false;
    }
}

/// The state after `n` consecutive failures, all recorded at `t`.
pub open spec fn spec_apply_failures(cb: CircuitBreaker, n: nat, t: u64) -> CircuitBreaker
    decreases n,
{
    if n == 0 {
        cb
    } else {
        spec_record_failure(spec_apply_failures(cb, (n - 1) as nat, t), t)
    }
}

proof fn lemma_failures_count_up(threshold: u64, timeout: u64, t: u64, n: nat)
    requires
        1 <= threshold,
        n <= threshold,
    ensures
        ({
            let cb = spec_apply_failures(spec_new_breaker(threshold, timeout), n, t);
            &&& cb.failure_count == n
            &&& cb.failure_threshold == threshold
            &&& cb.reset_timeout_ms == timeout
            &&& !cb.probe_in_flight
            &&& cb.phase == if n == threshold {
                BreakerPhase::Open
            } else {
                BreakerPhase::Closed
            }
            &&& n > 0 ==> cb.last_failure_at == Some(t)
        }),
    decreases n,
{
    if n > 0 {
        lemma_failures_count_up(threshold, timeout, t, (n - 1) as nat);
    }
}

/// Law: starting from a fresh breaker, the first `failure_threshold - 1`
/// consecutive failures leave it closed and exactly the
/// `failure_threshold`-th trips it open; while open and within the reset
/// timeout every call is declined; the first call after the timeout is
/// admitted as a half-open probe, and its success returns the breaker to
/// closed with the failure count at zero.
pub proof fn lemma_breaker_trip_and_recover(threshold: u64, timeout: u64, t_fail: u64, t_probe: u64)
    requires
        1 <= threshold,
        t_probe - t_fail >= timeout,
    ensures
        ({
            let fresh = spec_new_breaker(threshold, timeout);
            let tripped = spec_apply_failures(fresh, threshold as nat, t_fail);
            let probed = spec_admit(tripped, t_probe);
            let recovered = spec_record_success(probed.0);
            &&& forall|k: nat|
                k < threshold ==> (#[trigger] spec_apply_failures(fresh, k, t_fail)).phase
                    == BreakerPhase::Closed
            &&& tripped.phase == BreakerPhase::Open
            &&& forall|t: u64|
                t - t_fail < timeout ==> !(#[trigger] spec_admit(tripped, t)).1
            &&& probed.1
            &&& probed.0.phase == BreakerPhase::HalfOpen
            &&& recovered.phase == BreakerPhase::Closed
            &&& recovered.failure_count == 0
        }),
{
    let fresh = spec_new_breaker(threshold, timeout);
    lemma_failures_count_up(threshold, timeout, t_fail, threshold as nat);
    assert forall|k: nat| k < threshold implies (#[trigger] spec_apply_failures(
        fresh,
        k,
        t_fail,
    )).phase == BreakerPhase::Closed by {
        lemma_failures_count_up(threshold, timeout, t_fail, k);
    }
}

} // verus!
