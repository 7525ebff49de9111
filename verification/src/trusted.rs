//! The few calls into outside crates (and one hole in vstd's coverage of
//! `String`) that the rest of the crate relies on. Everything else in this
//! crate is verified against these contracts.

use vstd::prelude::*;

verus! {

/// Relies on `uuid::Uuid::new_v4`: a freshly drawn random identifier.
/// Nothing can be promised of a random value.
#[verifier::external_body]
pub(crate) fn fresh_uuid() -> u128 {
    uuid::Uuid::new_v4().as_u128()
}

/// Relies on `chrono::Utc::now`: the wall clock as milliseconds since the
/// epoch. Nothing can be promised of the clock, not even monotonicity; the
/// event store enforces monotone stamps itself. `Utc::now` aborts when the
/// system clock reads before the Unix epoch — an environmental failure
/// that no caller input can exclude.
#[verifier::external_body]
pub(crate) fn now_millis() -> i64 {
    chrono::Utc::now().timestamp_millis()
}

/// Relies on `String::push`, which std documents as appending the given
/// character to the end of the string; vstd has no specification for it.
#[verifier::external_body]
pub(crate) fn push_char(s: &mut String, c: char)
    ensures
        final(s)@ == old(s)@.push(c),
{
    s.push(c)
}

} // verus!
