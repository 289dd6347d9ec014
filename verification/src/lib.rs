//! Relaybox: a webhook delivery queue with idempotent enqueueing.
//!
//! This crate holds the verified core of the service: request validation,
//! the idempotency decisions of the delivery store, the shapes of the
//! replies, and the JSON values the service carries.

pub mod idempotency_key;
pub mod json;
pub mod domain;
pub mod formats;
pub mod store;
pub mod api;
