//! The fixed-window rate limiter with sliding expiry.
//!
//! Each identity's calls within a window are counted in the backend; an
//! accepted call increments the counter and resets the window's expiry to
//! sixty seconds, so a continuously active identity keeps its window
//! alive rather than getting a hard per-minute reset. This sliding-expiry
//! behaviour is deliberate and preserved, not a defect. The quota check
//! itself mutates nothing when it denies.

use vstd::prelude::*;
use crate::error::ApiError;
use crate::kv::{map_live_value, KvCell, KvStore, StoredValue, StoredValueView};

verus! {

/// Seconds one rate-limit window stays alive after an accepted call.
pub const WINDOW_SECONDS: u64 = 60;

/// The backend key counting one identity's calls.
pub open spec fn spec_rate_limit_key(identity: Seq<char>) -> Seq<char> {
    "rate_limit:"@ + identity
}

/// One quota decision: from the calls already counted this window, the
/// counter after the call and whether the call is admitted. A full window
/// denies and counts nothing; otherwise the call is admitted and counted.
pub open spec fn spec_window_step(count: nat, limit: u32) -> (nat, bool) {
    if count >= limit {
        (count, false)
    } else {
        (count + 1, true)
    }
}

/// The counter after `n` calls in one fresh window.
pub open spec fn spec_window_count(n: nat, limit: u32) -> nat
    decreases n,
{
    if n == 0 {
        0
    } else {
        spec_window_step(spec_window_count((n - 1) as nat, limit), limit).0
    }
}

/// Enforces a per-identity request quota over a rolling window.
pub struct RateLimiter {
    pub requests_per_minute: u32,
}

impl RateLimiter {
    /// A limiter admitting `requests_per_minute` calls per window.
    pub fn new(requests_per_minute: u32) -> (r: Self)
        ensures
            r.requests_per_minute == requests_per_minute,
    {
        RateLimiter { requests_per_minute }
    }

    /// Builds the backend key for one identity.
    pub fn rate_limit_key(identity: &String) -> (k: String)
        ensures
            k@ == spec_rate_limit_key(identity@),
    {
        let mut k = String::from_str("rate_limit:");
        k.append(identity.as_str());
        k
    }

    /// Gates one incoming call for `api_key` at `now`: reads the window's
    /// counter (absent counts as zero), denies with the quota error and no
    /// mutation when the window is full, and otherwise counts the call
    /// and slides the window's expiry out to sixty seconds. A cell that
    /// does not hold a counter surfaces as a backend error.
    pub fn check_rate_limit(&self, store: &mut KvStore, api_key: &String, now: u64) -> (r: Result<
        (),
        ApiError,
    >)
        requires
            old(store).wf(),
            now + 60 <= u64::MAX,
        ensures
            final(store).wf(),
            ({
                let k = spec_rate_limit_key(api_key@);
                let counted: nat = match map_live_value(old(store).contents(), k, now) {
                    Some(StoredValueView::Count(n)) => n as nat,
                    _ => 0,
                };
                let step = spec_window_step(counted, self.requests_per_minute);
                match map_live_value(old(store).contents(), k, now) {
                    Some(StoredValueView::Record(_)) => r matches Err(e) && e is Cache
                        && final(store).contents() == old(store).contents(),
                    _ => if step.1 {
                        r is Ok && final(store).contents() == old(store).contents().insert(
                            k,
                            KvCell {
                                value: StoredValueView::Count(step.0 as u64),
                                expires_at: Some((now + 60) as u64),
                            },
                        )
                    } else {
                        r matches Err(e) && e is RateLimitExceeded && final(store).contents()
                            == old(store).contents()
                    },
                }
            }),
    {
        let key = Self::rate_limit_key(api_key);
        let current: u64 = match store.get(&key, now) {
            Some(StoredValue::Count(n)) => n,
            Some(StoredValue::Record(_)) => {
                return Err(
                    ApiError::Cache(String::from_str("rate limit key holds a non-counter value")),
                );
            },
            None => 0,
        };
        if current >= self.requests_per_minute as u64 {
            return Err(ApiError::RateLimitExceeded);
        }
        let ghost mid = *store;
        let incremented = store.incr(&key, now);
        proof {
            assert(incremented == Ok::<u64, ()>((current + 1) as u64));
        }
        store.expire(&key, WINDOW_SECONDS, now);
        proof {
            let k = spec_rate_limit_key(api_key@);
            let cell = KvCell {
                value: StoredValueView::Count((current + 1) as u64),
                expires_at: Some((now + 60) as u64),
            };
            assert(final(store).contents() =~= mid.contents().insert(k, cell));
        }
        Ok(())
    }
}

/// The quota decision for one call, given the calls already counted in
/// the identity's window: admitted (count the call, slide the window) or
/// denied (mutate nothing).
pub fn window_decision(counted: u64, limit: u32) -> (admitted: bool)
    ensures
        admitted == spec_window_step(counted as nat, limit).1,
{
    counted < limit as u64
}

proof fn lemma_window_count_caps(limit: u32, n: nat)
    ensures
        n <= limit ==> spec_window_count(n, limit) == n,
        n > limit ==> spec_window_count(n, limit) == limit,
    decreases n,
{
    if n > 0 {
        lemma_window_count_caps(limit, (n - 1) as nat);
    }
}

/// Law: within one fresh window, the Nth call is admitted exactly when N
/// is at most the limit; every call after the limit, the `limit + 1`-th
/// first of all, is denied with the counter left at the limit.
pub proof fn lemma_fixed_window_quota(limit: u32, n: nat)
    requires
        1 <= n,
    ensures
        n <= limit ==> spec_window_step(spec_window_count((n - 1) as nat, limit), limit).1
            && spec_window_count(n, limit) == n,
        n > limit ==> !spec_window_step(spec_window_count((n - 1) as nat, limit), limit).1
            && spec_window_count(n, limit) == limit,
{
    lemma_window_count_caps(limit, (n - 1) as nat);
    lemma_window_count_caps(limit, n);
}

} // verus!
