//! Instants in UTC, held by their calendar fields.
use chrono::TimeZone;
use vstd::prelude::*;

verus! {

/// Leap years of the proleptic Gregorian calendar.
pub open spec fn is_leap_year(y: int) -> bool {
    (y % 4 == 0 && y % 100 != 0) || y % 400 == 0
}

pub open spec fn days_in_month(y: int, m: int) -> int {
    if m == 2 {
        if is_leap_year(y) {
            29
        } else {
            28
        }
    } else if m == 4 || m == 6 || m == 9 || m == 11 {
        30
    } else {
        31
    }
}

/// A calendar date and time of day that chrono can represent: years from 262144 BCE
/// (year -262143) to 262142 CE, real calendar days, and no leap second.
pub open spec fn civil_time_exists(y: i32, m: u32, d: u32, h: u32, mi: u32, s: u32) -> bool {
    &&& -262143 <= y <= 262142
    &&& 1 <= m <= 12
    &&& 1 <= d <= days_in_month(y as int, m as int)
    &&& h < 24
    &&& mi < 60
    &&& s < 60
}

/// Asks `chrono::Utc.with_ymd_and_hms` whether the calendar date and time of day
/// exist. The contract claims that chrono gives a single instant exactly when
/// the year lies in chrono's range, the month and day name a real day of the
/// proleptic Gregorian calendar, and hour, minute and second are below 24, 60 and 60.
#[verifier::external_body]
fn chrono_civil_time_exists(year: i32, month: u32, day: u32, hour: u32, min: u32, sec: u32) -> (r:
    bool)
    ensures
        r == civil_time_exists(year, month, day, hour, min, sec),
{
    chrono::Utc.with_ymd_and_hms(year, month, day, hour, min, sec).single().is_some()
}

/// An instant in UTC with microsecond precision.
#[derive(Clone, Copy, Debug, PartialEq, Eq)]
pub struct UtcDateTime {
    pub year: i32,
    pub month: u32,
    pub day: u32,
    pub hour: u32,
    pub minute: u32,
    pub second: u32,
    pub microsecond: u32,
}

impl UtcDateTime {
    /// The fields name an instant.
    pub open spec fn wf(self) -> bool {
        civil_time_exists(self.year, self.month, self.day, self.hour, self.minute, self.second)
            && self.microsecond < 1_000_000
    }

    /// The instant at the given second, if the calendar has it.
    pub fn from_ymd_hms(year: i32, month: u32, day: u32, hour: u32, minute: u32, second: u32) -> (res:
        Option<UtcDateTime>)
        ensures
            res is Some <==> civil_time_exists(year, month, day, hour, minute, second),
            res matches Some(t) ==> t == (UtcDateTime {
                year,
                month,
                day,
                hour,
                minute,
                second,
                microsecond: 0,
            }) && t.wf(),
    {
        if chrono_civil_time_exists(year, month, day, hour, minute, second) {
            Some(UtcDateTime { year, month, day, hour, minute, second, microsecond: 0 })
        } else {
            None
        }
    }

    /// The same second with the microseconds replaced.
    pub fn with_microsecond(self, microsecond: u32) -> (res: UtcDateTime)
        requires
            microsecond < 1_000_000,
        ensures
            res == (UtcDateTime { microsecond, ..self }),
    {
        UtcDateTime { microsecond, ..self }
    }
}

} // verus!
