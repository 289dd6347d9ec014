//! Deliveries, the requests that create them, and the store's errors.

use vstd::prelude::*;

use crate::json::Json;

verus! {

/// An instant, as seconds since the Unix epoch and nanoseconds past that
/// second (which may exceed 999,999,999 during a leap second).
#[derive(Clone, Copy, Debug, PartialEq, Eq, Structural)]
pub struct Timestamp {
    pub seconds: i64,
    pub nanos: u32,
}

/// A webhook delivery as stored and as returned to clients.
#[derive(Debug)]
pub struct Delivery {
    /// The delivery's UUID, as its 128-bit big-endian value.
    pub id: u128,
    pub status: String,
    pub attempts: i64,
    pub target_url: String,
    pub payload: Json,
    pub created_at: Timestamp,
}

/// A validated request to enqueue a delivery.
#[derive(Debug)]
pub struct NewDelivery {
    pub idempotency_key: String,
    pub target_url: String,
    pub payload: Json,
}

/// Why the store could not answer.
#[derive(Debug)]
pub enum RepositoryError {
    /// The idempotency key was already used with a different target or payload.
    Conflict,
    /// The database failed; the text describes how.
    Persistence(String),
}

impl NewDelivery {
    /// Gathers the three parts of an enqueue request.
    pub fn new(idempotency_key: String, target_url: String, payload: Json) -> (r: NewDelivery)
        ensures
            r.idempotency_key == idempotency_key,
            r.target_url == target_url,
            r.payload == payload,
    {
        NewDelivery { idempotency_key, target_url, payload }
    }
}

} // verus!
