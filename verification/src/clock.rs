//! What the library takes from the outside world: the time of day and fresh
//! identifiers.

use vstd::prelude::*;

verus! {

/// Calls `chrono::Utc::now` and `DateTime::timestamp`. Trusted: the result,
/// the system clock's reading in seconds since the Unix epoch, is not
/// negative; `Utc::now` does not return for a clock that stands before the
/// epoch. Nothing else is claimed of it.
#[verifier::external_body]
pub(crate) fn unix_now() -> (now: i64)
    ensures
        0 <= now,
{
    chrono::Utc::now().timestamp()
}

/// Calls `uuid::Uuid::new_v4` and writes the result as text. Trusted: nothing
/// is claimed of the result, which is random.
#[verifier::external_body]
pub(crate) fn fresh_action_id() -> (id: String) {
    uuid::Uuid::new_v4().to_string()
}

} // verus!
