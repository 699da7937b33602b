//! A verified core for a geospatial feature service: coordinate-system
//! validation, spatial-query translation, an API-key registry with expiry
//! and sweep semantics, a cache-aside layer, a fixed-window rate limiter,
//! and a circuit breaker, all modelled over a key-value backend with
//! logical time.

pub mod cache;
pub mod circuit_breaker;
pub mod db;
pub mod error;
pub mod kv;
pub mod models;
pub mod projection;
pub mod rate_limit;
pub mod service;
pub mod text;
