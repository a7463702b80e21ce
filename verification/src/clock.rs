//! Reading the clock, and deciding staleness from a reading.

use vstd::prelude::*;

verus! {

/// The current time in milliseconds, as `instant::now` reports it, cut to a
/// whole number.
///
/// Nothing is claimed of the value. What the clock counts from depends on the
/// platform (the Unix epoch natively, the start of the page in a browser),
/// and the clock may be set back between two calls. Natively the outside call
/// aborts if the system clock reads earlier than the Unix epoch.
#[verifier::external_body]
pub fn now() -> (t: i64) {
    instant::now() as i64
}

/// Whether a result last updated at `last_updated` is stale at time `now`
/// under the threshold `stale_time`: it was never updated, or it is older
/// than the threshold.
pub open spec fn spec_is_stale(last_updated: Option<i64>, now: i64, stale_time: i64) -> bool {
    match last_updated {
        None => true,
        Some(at) => now - at > stale_time,
    }
}

/// Decides staleness without overflow for every reading of the clock.
pub fn is_stale(last_updated: Option<i64>, now: i64, stale_time: i64) -> (stale: bool)
    ensures
        stale == spec_is_stale(last_updated, now, stale_time),
{
    match last_updated {
        None => true,
        Some(at) => (now as i128) - (at as i128) > (stale_time as i128),
    }
}

} // verus!
