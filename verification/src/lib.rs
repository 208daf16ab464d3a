//! Task lifecycle and dispatch for a bounded-concurrency generation service.
//!
//! The library models the core of a job server: submissions are validated,
//! recorded as durable task records, queued in arrival order, and claimed by a
//! dispatcher that runs at most a fixed number of executions at once. Status
//! queries join the record store with the live queue to report an approximate
//! position. All state transitions and counting rules are stated in contracts
//! and verified.

pub mod api;
pub mod record;
pub mod server;
pub mod store;
pub mod validation;
