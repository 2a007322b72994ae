//! The moment a revision is made, as calendar fields with their offset from
//! UTC.

use chrono::{Datelike, Timelike};
use vstd::prelude::*;

verus! {

/// A point in time, broken down into the calendar date and time of day that a
/// clock shows at `offset_seconds` east of UTC.
#[derive(Clone, Copy, Debug, PartialEq, Eq, Structural)]
pub struct Timestamp {
    pub year: i32,
    pub month: u32,
    pub day: u32,
    pub hour: u32,
    pub minute: u32,
    pub second: u32,
    /// Nanoseconds since the whole second; a leap second runs past a billion.
    pub nanosecond: u32,
    pub offset_seconds: i32,
}

impl Timestamp {
    /// The fields lie in the ranges of a calendar and a clock. Which days a
    /// month has is not part of it.
    pub open spec fn in_range(self) -> bool {
        &&& 1 <= self.month <= 12
        &&& 1 <= self.day <= 31
        &&& self.hour <= 23
        &&& self.minute <= 59
        &&& self.second <= 59
        &&& self.nanosecond <= 1_999_999_999
        &&& -86_400 < self.offset_seconds < 86_400
    }

    /// Tells whether the fields lie in the ranges of a calendar and a clock.
    pub fn is_in_range(&self) -> (ok: bool)
        ensures
            ok == self.in_range(),
    {
        1 <= self.month && self.month <= 12 && 1 <= self.day && self.day <= 31 && self.hour <= 23
            && self.minute <= 59 && self.second <= 59 && self.nanosecond <= 1_999_999_999
            && -86_400 < self.offset_seconds && self.offset_seconds < 86_400
    }
}

/// Reads the system clock in the local time zone: `chrono::Local::now`, fixed
/// to its offset by `DateTime::fixed_offset`, and taken apart with the
/// accessors of `Datelike`, `Timelike` and `FixedOffset::local_minus_utc`.
///
/// Nothing is claimed about which moment comes back, only that each field
/// lies in the range that chrono documents for its accessor. Like chrono, it
/// panics if the system clock reads a time before 1970.
#[verifier::external_body]
pub(crate) fn now() -> (at: Timestamp)
    ensures
        at.in_range(),
{
    let t = chrono::Local::now().fixed_offset();
    Timestamp {
        year: t.year(),
        month: t.month(),
        day: t.day(),
        hour: t.hour(),
        minute: t.minute(),
        second: t.second(),
        nanosecond: t.nanosecond(),
        offset_seconds: t.offset().local_minus_utc(),
    }
}

} // verus!
