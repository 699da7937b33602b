use geospatial::error::ApiError;
use geospatial::kv::KvStore;
use geospatial::rate_limit::RateLimiter;

#[test]
fn test_rate_limiting() {
    let mut store = KvStore::new();
    let rate_limiter = RateLimiter::new(2); // 2 requests per minute for testing
    let api_key = String::from("test_key_1");
    let now: u64 = 10_000;

    rate_limiter
        .check_rate_limit(&mut store, &api_key, now)
        .expect("First request should not be rate limited");

    rate_limiter
        .check_rate_limit(&mut store, &api_key, now)
        .expect("Second request should not be rate limited");

    let result = rate_limiter.check_rate_limit(&mut store, &api_key, now);
    assert!(result.is_err());
    assert!(matches!(result.unwrap_err(), ApiError::RateLimitExceeded));

    // Wait for rate limit to reset
    let later = now + 60;

    rate_limiter
        .check_rate_limit(&mut store, &api_key, later)
        .expect("Request should succeed after rate limit reset");
}

#[test]
fn test_quota_boundary_at_limit() {
    let mut store = KvStore::new();
    let limiter = RateLimiter::new(5);
    let key = String::from("caller");
    let now: u64 = 0;

    for _ in 0..5 {
        assert!(limiter.check_rate_limit(&mut store, &key, now).is_ok());
    }
    assert!(matches!(
        limiter.check_rate_limit(&mut store, &key, now),
        Err(ApiError::RateLimitExceeded)
    ));
}

#[test]
fn test_sliding_expiry_keeps_window_alive() {
    let mut store = KvStore::new();
    let limiter = RateLimiter::new(2);
    let key = String::from("busy");

    // Two accepted calls thirty seconds apart: the second slides the
    // window forward, so fifty seconds after the first call the window
    // is still alive and full.
    assert!(limiter.check_rate_limit(&mut store, &key, 0).is_ok());
    assert!(limiter.check_rate_limit(&mut store, &key, 30).is_ok());
    assert!(matches!(
        limiter.check_rate_limit(&mut store, &key, 50),
        Err(ApiError::RateLimitExceeded)
    ));
    // Sixty seconds after the last accepted call the window has expired.
    assert!(limiter.check_rate_limit(&mut store, &key, 90).is_ok());
}

#[test]
fn test_independent_identities() {
    let mut store = KvStore::new();
    let limiter = RateLimiter::new(1);
    let now: u64 = 0;

    assert!(limiter.check_rate_limit(&mut store, &String::from("a"), now).is_ok());
    assert!(limiter.check_rate_limit(&mut store, &String::from("b"), now).is_ok());
    assert!(limiter
        .check_rate_limit(&mut store, &String::from("a"), now)
        .is_err());
}
