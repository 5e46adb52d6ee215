//! Wall-clock access for timestamp fields.

use vstd::prelude::*;

verus! {

/// Relies on std's `SystemTime::now` and `duration_since(UNIX_EPOCH)`:
/// seconds since the Unix epoch. A clock set before the epoch reads as
/// the epoch itself, and one beyond the range of `i64` saturates, so
/// the call never panics and never returns a negative value; nothing
/// more can be promised of the current time.
#[verifier::external_body]
pub fn now_timestamp() -> (t: i64)
    ensures
        t >= 0,
{
    match std::time::SystemTime::now().duration_since(std::time::UNIX_EPOCH) {
        Ok(d) => i64::try_from(d.as_secs()).unwrap_or(i64::MAX),
        Err(_) => 0,
    }
}

} // verus!
