//! Shared helpers: pacing of requests to a source.
pub mod rate_limiter;
