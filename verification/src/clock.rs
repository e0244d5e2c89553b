//! Points in time, held as plain numbers.
use vstd::prelude::*;

verus! {

/// A point in time in UTC: whole seconds since the Unix epoch and the
/// nanoseconds within that second.
#[derive(Debug, Clone, Copy, PartialEq, Eq, Structural)]
pub struct Timestamp {
    pub secs: i64,
    pub nanos: u32,
}

/// The current time: `std::time::SystemTime::now`, turned into a UTC date and
/// time by chrono's `From<SystemTime> for DateTime<Utc>`, and taken apart into
/// seconds (`timestamp`) and nanoseconds (`timestamp_subsec_nanos`). Which
/// instant it is, is not stated: it comes from the system clock, which may
/// even read before 1970 (negative seconds are then returned, not a panic).
/// chrono builds the nanoseconds from the part of a second, so they stay below
/// one second. The conversion still panics on a clock reading outside chrono's
/// range of dates (some 262,000 years either side of year 0).
#[verifier::external_body]
pub(crate) fn utc_now() -> (t: Timestamp)
    ensures
        t.nanos < 1_000_000_000,
{
    let now = chrono::DateTime::<chrono::Utc>::from(std::time::SystemTime::now());
    Timestamp { secs: now.timestamp(), nanos: now.timestamp_subsec_nanos() }
}

} // verus!
