//! A concurrent HTTP load-generation engine.
//!
//! The engine issues a configured volume of HTTP requests against a target
//! endpoint using a pool of independent workers, aggregates outcome
//! statistics (total completed, per-status-code counts), reports live
//! throughput, and supports cooperative, prompt cancellation.
//!
//! This crate holds the engine's logic: work division across the pool,
//! the statistics aggregator and its consistency guarantees, the stop
//! signal, and the decision rules of the worker, reporter and supervisor
//! loops. The HTTP transport, the command line and the operator's input
//! are outside collaborators: the surrounding binary performs them and
//! hands this crate plain values.

pub mod quota;
pub mod reporter;
pub mod request;
pub mod stats;
pub mod stop;
pub mod supervisor;
pub mod worker;
