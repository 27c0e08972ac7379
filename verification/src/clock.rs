//! Time, as the store sees it: an instant is a count of nanoseconds since the
//! start of 1970, UTC. The wall clock and the range of representable
//! instants are chrono's; the contracts of the two wrappers in this file are
//! believed, not proved.

use chrono::{DateTime, Utc};
use vstd::prelude::*;

verus! {

/// A point in time: nanoseconds since the start of 1970, UTC. The count is
/// wide enough for every reading of the clock and for every deadline that a
/// command can ask for.
pub type Instant = i128;

/// The number of nanoseconds in a millisecond.
pub const NANOS_PER_MILLI: i128 = 1_000_000;

/// The number of nanoseconds in a second.
pub const NANOS_PER_SECOND: i128 = 1_000_000_000;

/// The last millisecond count that a deadline in whole seconds can reach:
/// the largest unsigned 32-bit count of seconds, in milliseconds.
pub const LAST_SECONDS_DEADLINE: i64 = 4_294_967_295_000;

/// What `chrono::DateTime::<Utc>::from_timestamp_millis` makes of a count of
/// milliseconds, read back with `timestamp_millis`: the count where chrono
/// can represent the instant, nothing where it cannot.
pub uninterp spec fn utc_from_millis(millis: i64) -> Option<i64>;

/// `chrono::Utc::now`, read with `DateTime::timestamp` and
/// `DateTime::timestamp_subsec_nanos`: whole seconds since 1970 and the
/// nanoseconds past them. Nothing is claimed of the reading. chrono panics
/// if the system clock is set before 1970.
#[verifier::external_body]
pub(crate) fn utc_now() -> (i64, u32) {
    let t = Utc::now();
    (t.timestamp(), t.timestamp_subsec_nanos())
}

/// `chrono::DateTime::<Utc>::from_timestamp_millis`, read back with
/// `DateTime::timestamp_millis`. chrono documents that the two round-trip, so
/// a count that comes back is the one that went in. chrono's calendar ends
/// with the year 262142, so every count from 1970 to
/// [`LAST_SECONDS_DEADLINE`], which falls in 2106, comes back.
#[verifier::external_body]
pub(crate) fn from_timestamp_millis(millis: i64) -> (back: Option<i64>)
    ensures
        back == utc_from_millis(millis),
        back matches Some(t) ==> t == millis,
        0 <= millis <= LAST_SECONDS_DEADLINE ==> back is Some,
{
    match DateTime::<Utc>::from_timestamp_millis(millis) {
        Some(t) => Some(t.timestamp_millis()),
        None => None,
    }
}

/// Whether an instant can be a reading of the clock: whole seconds that fit
/// a signed 64-bit integer, and nanoseconds that fit an unsigned 32-bit one.
pub open spec fn on_the_clock(t: Instant) -> bool {
    i64::MIN * NANOS_PER_SECOND <= t <= i64::MAX * NANOS_PER_SECOND + u32::MAX
}

/// The instant that the wall clock shows.
pub(crate) fn now() -> (instant: Instant)
    ensures
        on_the_clock(instant),
{
    let (seconds, nanos) = utc_now();
    seconds as i128 * NANOS_PER_SECOND + nanos as i128
}

} // verus!
