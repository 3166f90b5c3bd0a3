use vstd::prelude::*;

verus! {

/// Relies on uuid::Uuid::new_v4 and uuid's Display form: a random
/// version-4 UUID rendered as its hyphenated lowercase textual form,
/// which is 36 characters long. The value is random: nothing else is
/// assumed of it, and two calls may (in principle) collide.
#[verifier::external_body]
pub(crate) fn new_uuid_string() -> (r: String)
    ensures
        r@.len() == 36,
{
    uuid::Uuid::new_v4().to_string()
}

/// Relies on chrono::Utc::now: the current UTC time, reported in
/// microseconds since the Unix epoch. The clock may move arbitrarily
/// between calls, so nothing is assumed of the value.
#[verifier::external_body]
pub(crate) fn now_micros() -> i64 {
    chrono::Utc::now().timestamp_micros()
}

} // verus!
