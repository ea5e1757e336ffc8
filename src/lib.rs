//! A policy-enforcement gateway: events become deterministic response plans
//! after idempotency, gate, authorization and planning stages, and every
//! decision lands in a hash-chained audit log.
pub mod audit;
pub mod authz;
pub mod clock;
pub mod config;
pub mod contracts;
pub mod digest;
pub mod json;
pub mod kernel;
pub mod pipeline;
pub mod store;
pub mod table;
pub mod text;
pub mod wire;
