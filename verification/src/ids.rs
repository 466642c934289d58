//! Fresh message ids and dispatch times: the two values that come from outside the logic
//! (randomness and the clock).
use vstd::prelude::*;
use std::hash::{Hash, Hasher};

verus! {

/// A point in time as the duration since the Unix epoch.
#[derive(PartialEq, Eq, Clone, Copy, Debug, Default)]
pub struct Timestamp {
    pub secs: u64,
    pub nanos: u32,
}

/// A fresh message id: the std `DefaultHasher` hash of a new random (version 4) UUID from
/// the `uuid` crate. Nothing is stated of the value; two calls may return anything.
#[verifier::external_body]
pub(crate) fn fresh_id() -> u64 {
    let mut hasher = std::collections::hash_map::DefaultHasher::new();
    uuid::Uuid::new_v4().hash(&mut hasher);
    hasher.finish()
}

/// The current time from std's `SystemTime::now`, as the duration since the Unix epoch
/// (`0` if the clock reads a time before it). Only the range of the nanoseconds is stated.
#[verifier::external_body]
pub(crate) fn timestamp_now() -> (t: Timestamp)
    ensures
        t.nanos < 1_000_000_000,
{
    match std::time::SystemTime::now().duration_since(std::time::UNIX_EPOCH) {
        Ok(d) => Timestamp { secs: d.as_secs(), nanos: d.subsec_nanos() },
        Err(_) => Timestamp { secs: 0, nanos: 0 },
    }
}

} // verus!
