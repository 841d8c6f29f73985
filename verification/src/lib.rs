//! Core of a high-availability JSON-RPC gateway: a per-node circuit breaker,
//! a health-aware round-robin load balancer, and a bounded time-expiring
//! response cache. Time is passed in explicitly (as milliseconds), so every
//! state transition is a plain function of its inputs.

pub mod cache;
pub mod load_balancer;
pub mod types;
pub mod upstream;
