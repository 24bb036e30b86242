//! Safety patterns for calling unreliable services: failure-gated call
//! guards, input and response validation, and the bookkeeping around a
//! guarded call.

pub mod analyzer;
pub mod breaker;
pub mod sentiment;
pub mod text;
pub mod text_stats;
pub mod timed_breaker;
pub mod workflow;
