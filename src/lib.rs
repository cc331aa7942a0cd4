//! A prediction-market engine: market creation, staking, dispute voting,
//! resolution, and a global circuit breaker with failure monitoring.
//!
//! The whole engine state lives in one `PredictIq` value. Host services
//! (identity authentication, token custody, the clock, event publishing)
//! stay with the caller: identities arrive already authenticated, the
//! current time is passed in, and emitted events are appended to a log.

pub mod types;
pub mod sums;
pub mod admin;
pub mod markets;
pub mod bets;
pub mod voting;
pub mod disputes;
pub mod circuit_breaker;
pub mod monitoring;
