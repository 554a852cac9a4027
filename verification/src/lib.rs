//! Server-side feature-flag and experimentation engine.
//!
//! The crate holds the evaluation core of the SDK: the ruleset model and
//! evaluator (condition trees, deterministic user bucketing, delegation),
//! the specs-synchronization state machine with monotonic `lcut` semantics,
//! the exposure-logging pipeline with dedup and backpressure, and the
//! background-task supervisor model. Network transports and async plumbing
//! live outside the library and hand it plain values.

pub mod errors;
pub mod evaluator;
pub mod event_logging;
pub mod hashing;
pub mod instance_store;
pub mod json;
pub mod runtime;
pub mod spec_store;
pub mod statsig;
pub mod specs_adapter;
pub mod spec_types;
pub mod statsig_types;
pub mod user;
pub mod version;
