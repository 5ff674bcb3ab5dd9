//! Timestamps of the host and instants in UTC, and the conversions between
//! them. The calendar arithmetic is chrono's.

use crate::error::{Error, ErrorView};
use chrono::{Datelike, TimeZone, Timelike};
use vstd::prelude::*;

verus! {

/// A timestamp as the host holds it, by its parts.
#[derive(Debug, Clone, Copy, PartialEq, Eq, Structural)]
pub struct Timestamp {
    pub year: i32,
    pub month: u8,
    pub day: u8,
    pub hour: u8,
    pub minute: u8,
    /// Whole seconds.
    pub second: u32,
    /// Microseconds as the host reports them. They are read as the part of
    /// the second that follows its last whole one.
    pub microseconds: u32,
}

/// The first and the last year of chrono's calendar.
pub open spec fn min_year() -> int {
    -262143
}

pub open spec fn max_year() -> int {
    262142
}

pub open spec fn is_leap_year(year: int) -> bool {
    year % 4 == 0 && (year % 100 != 0 || year % 400 == 0)
}

pub open spec fn days_in_month(year: int, month: int) -> int {
    if month == 2 {
        if is_leap_year(year) {
            29
        } else {
            28
        }
    } else if month == 4 || month == 6 || month == 9 || month == 11 {
        30
    } else {
        31
    }
}

/// The day exists in the proleptic Gregorian calendar, in a year that chrono
/// can hold.
pub open spec fn valid_date(year: int, month: int, day: int) -> bool {
    &&& min_year() <= year <= max_year()
    &&& 1 <= month <= 12
    &&& 1 <= day <= days_in_month(year, month)
}

/// A time of day. A million microseconds or more stand for a leap second, and
/// only the last second of a minute can have one.
pub open spec fn valid_time(hour: int, minute: int, second: int, micro: int) -> bool {
    &&& 0 <= hour < 24
    &&& 0 <= minute < 60
    &&& 0 <= second < 60
    &&& 0 <= micro < 2_000_000
    &&& micro < 1_000_000 || second == 59
}

/// The fields name a date and a time of day that chrono can hold.
pub open spec fn valid_civil(
    year: i32,
    month: u32,
    day: u32,
    hour: u32,
    minute: u32,
    second: u32,
    micro: u32,
) -> bool {
    &&& valid_date(year as int, month as int, day as int)
    &&& valid_time(hour as int, minute as int, second as int, micro as int)
}

impl Timestamp {
    /// The parts name a date and a time of day that chrono can hold.
    pub open spec fn valid(self) -> bool {
        valid_civil(
            self.year,
            self.month as u32,
            self.day as u32,
            self.hour as u32,
            self.minute as u32,
            self.second,
            self.microseconds,
        )
    }

    /// Whether the parts name a date and a time of day that chrono can hold.
    pub fn is_valid(&self) -> (valid: bool)
        ensures
            valid == self.valid(),
    {
        if self.year < -262143 || self.year > 262142 || self.month < 1 || self.month > 12 {
            return false;
        }
        // 262400 years are a whole number of 400-year cycles.
        let shifted: i32 = self.year + 262400;
        let leap = shifted % 4 == 0 && (shifted % 100 != 0 || shifted % 400 == 0);
        let days: u8 = if self.month == 2 {
            if leap {
                29
            } else {
                28
            }
        } else if self.month == 4 || self.month == 6 || self.month == 9 || self.month == 11 {
            30
        } else {
            31
        };
        self.day >= 1 && self.day <= days && self.hour < 24 && self.minute < 60 && self.second
            < 60 && self.microseconds < 2_000_000 && (self.microseconds < 1_000_000 || self.second
            == 59)
    }
}

/// The seconds from 1970-01-01 00:00:00 UTC to the given date and time of day
/// in UTC, leap seconds not counted, as chrono computes them.
pub uninterp spec fn utc_timestamp_of_civil(
    year: i32,
    month: u32,
    day: u32,
    hour: u32,
    minute: u32,
    second: u32,
) -> i64;

/// The date and time of day in UTC (year, month, day, hour, minute, second)
/// that lie the given milliseconds after 1970-01-01 00:00:00 UTC, as chrono
/// computes them. It says nothing of milliseconds outside chrono's calendar.
pub uninterp spec fn utc_civil_of_millis(millis: i64) -> (i32, u32, u32, u32, u32, u32);

/// The milliseconds lie within chrono's calendar: not before the first
/// millisecond of its first year nor after the last one of its last year.
pub open spec fn in_calendar(millis: i64) -> bool {
    -8_334_601_228_800_000 <= millis <= 8_210_266_876_799_999
}

/// Month, day, hour, minute and second lie in the ranges of a calendar.
pub open spec fn civil_in_range(civil: (i32, u32, u32, u32, u32, u32)) -> bool {
    &&& 1 <= civil.1 <= 12
    &&& 1 <= civil.2 <= 31
    &&& civil.3 < 24
    &&& civil.4 < 60
    &&& civil.5 < 60
}

/// Calls chrono's `NaiveDate::from_ymd_opt`, `NaiveTime::from_hms_micro_opt`,
/// `NaiveDateTime::new`, `Utc.from_utc_datetime` and `DateTime::timestamp`.
///
/// Believed of them: the date is made exactly when the day exists and the
/// year is within chrono's calendar, the time exactly when hour, minute and
/// second are in range and the microseconds are under a million, or under two
/// million in a second 59; the timestamp is a function of the date and the
/// whole seconds alone.
#[verifier::external_body]
fn utc_from_civil(
    year: i32,
    month: u32,
    day: u32,
    hour: u32,
    minute: u32,
    second: u32,
    micro: u32,
) -> (found: Option<i64>)
    ensures
        found is Some <==> valid_civil(year, month, day, hour, minute, second, micro),
        found is Some ==> found->0 == utc_timestamp_of_civil(year, month, day, hour, minute, second),
{
    let date = chrono::NaiveDate::from_ymd_opt(year, month, day)?;
    let time = chrono::NaiveTime::from_hms_micro_opt(hour, minute, second, micro)?;
    let instant = chrono::Utc.from_utc_datetime(&chrono::NaiveDateTime::new(date, time));
    Some(instant.timestamp())
}

/// Calls chrono's `DateTime::from_timestamp_millis` and reads the result's
/// `year`, `month`, `day`, `hour`, `minute`, `second` and `timestamp`.
///
/// Believed of them: there is a result exactly for the milliseconds from
/// the first day of chrono's calendar, 1 January of the year -262143, to
/// its last, 31 December of 262142; the calendar fields are a function of
/// the milliseconds alone and lie in the ranges that chrono documents for
/// each; the timestamp is the milliseconds divided by a thousand, rounded
/// down.
#[verifier::external_body]
fn utc_from_millis(millis: i64) -> (fields: Option<(i32, u32, u32, u32, u32, u32, i64)>)
    ensures
        fields is Some <==> in_calendar(millis),
        fields matches Some(f) ==> (f.0, f.1, f.2, f.3, f.4, f.5) == utc_civil_of_millis(millis),
        fields matches Some(f) ==> civil_in_range((f.0, f.1, f.2, f.3, f.4, f.5)),
        fields matches Some(f) ==> f.6 == millis as int / 1000,
{
    let instant = chrono::DateTime::from_timestamp_millis(millis)?;
    Some(
        (
            instant.year(),
            instant.month(),
            instant.day(),
            instant.hour(),
            instant.minute(),
            instant.second(),
            instant.timestamp(),
        ),
    )
}

/// The instant that lies `millis` milliseconds after the epoch, where
/// chrono's calendar reaches: the date and the time of day to the second
/// are chrono's, and the milliseconds over the last whole second are kept.
pub open spec fn instant_of_millis(millis: i64) -> Option<Instant> {
    if in_calendar(millis) {
        let civil = utc_civil_of_millis(millis);
        Some(
            Instant {
                year: civil.0,
                month: civil.1,
                day: civil.2,
                hour: civil.3,
                minute: civil.4,
                second: civil.5,
                microsecond: ((millis as int % 1000) * 1000) as u32,
                timestamp: (millis as int / 1000) as i64,
            },
        )
    } else {
        None
    }
}

/// The mathematical value of a [`UtcDateTime`].
pub struct Instant {
    pub year: i32,
    pub month: u32,
    pub day: u32,
    pub hour: u32,
    pub minute: u32,
    pub second: u32,
    /// The part under a second, in microseconds. A million or more stand
    /// for a leap second.
    pub microsecond: u32,
    /// Whole seconds since 1970-01-01 00:00:00 UTC.
    pub timestamp: i64,
}

/// An instant in UTC: its calendar fields and its distance from the epoch.
pub struct UtcDateTime {
    year: i32,
    month: u32,
    day: u32,
    hour: u32,
    minute: u32,
    second: u32,
    microsecond: u32,
    timestamp: i64,
}

impl View for UtcDateTime {
    type V = Instant;

    closed spec fn view(&self) -> Instant {
        Instant {
            year: self.year,
            month: self.month,
            day: self.day,
            hour: self.hour,
            minute: self.minute,
            second: self.second,
            microsecond: self.microsecond,
            timestamp: self.timestamp,
        }
    }
}

impl UtcDateTime {
    #[verifier::type_invariant]
    spec fn fields_in_range(self) -> bool {
        &&& 1 <= self.month <= 12
        &&& 1 <= self.day <= 31
        &&& self.hour < 24
        &&& self.minute < 60
        &&& self.second < 60
        &&& self.microsecond < 2_000_000
    }

    /// The instant the given milliseconds after the epoch, where chrono's
    /// calendar reaches it.
    pub fn from_timestamp_millis(millis: i64) -> (instant: Option<UtcDateTime>)
        ensures
            match instant_of_millis(millis) {
                Some(at) => instant is Some && instant->0@ == at,
                None => instant is None,
            },
    {
        match utc_from_millis(millis) {
            Some(f) => {
                let over: i64 = millis - f.6 * 1000;
                Some(
                    UtcDateTime {
                        year: f.0,
                        month: f.1,
                        day: f.2,
                        hour: f.3,
                        minute: f.4,
                        second: f.5,
                        microsecond: over as u32 * 1000,
                        timestamp: f.6,
                    },
                )
            },
            None => None,
        }
    }

    pub fn year(&self) -> (year: i32)
        ensures
            year == self@.year,
    {
        self.year
    }

    /// The month, from 1 to 12.
    pub fn month(&self) -> (month: u32)
        ensures
            month == self@.month,
            1 <= month <= 12,
    {
        proof {
            use_type_invariant(self);
        }
        self.month
    }

    /// The day of the month, from 1 to 31.
    pub fn day(&self) -> (day: u32)
        ensures
            day == self@.day,
            1 <= day <= 31,
    {
        proof {
            use_type_invariant(self);
        }
        self.day
    }

    /// The hour, from 0 to 23.
    pub fn hour(&self) -> (hour: u32)
        ensures
            hour == self@.hour,
            hour < 24,
    {
        proof {
            use_type_invariant(self);
        }
        self.hour
    }

    /// The minute, from 0 to 59.
    pub fn minute(&self) -> (minute: u32)
        ensures
            minute == self@.minute,
            minute < 60,
    {
        proof {
            use_type_invariant(self);
        }
        self.minute
    }

    /// The second, from 0 to 59.
    pub fn second(&self) -> (second: u32)
        ensures
            second == self@.second,
            second < 60,
    {
        proof {
            use_type_invariant(self);
        }
        self.second
    }

    /// The part under a second, in microseconds; a million or more in a
    /// leap second.
    pub fn microsecond(&self) -> (microsecond: u32)
        ensures
            microsecond == self@.microsecond,
            microsecond < 2_000_000,
    {
        proof {
            use_type_invariant(self);
        }
        self.microsecond
    }

    /// Whole seconds since 1970-01-01 00:00:00 UTC.
    pub fn timestamp(&self) -> (seconds: i64)
        ensures
            seconds == self@.timestamp,
    {
        self.timestamp
    }
}

/// The instant that a host timestamp names, read as UTC: the same date and
/// time of day, to the microsecond.
pub open spec fn instant_of(ts: Timestamp) -> Instant {
    Instant {
        year: ts.year,
        month: ts.month as u32,
        day: ts.day as u32,
        hour: ts.hour as u32,
        minute: ts.minute as u32,
        second: ts.second,
        microsecond: ts.microseconds,
        timestamp: utc_timestamp_of_civil(
            ts.year,
            ts.month as u32,
            ts.day as u32,
            ts.hour as u32,
            ts.minute as u32,
            ts.second,
        ),
    }
}

/// The host timestamp of an instant: the same date and time of day, to the
/// microsecond.
pub open spec fn timestamp_of(instant: Instant) -> Timestamp {
    Timestamp {
        year: instant.year,
        month: instant.month as u8,
        day: instant.day as u8,
        hour: instant.hour as u8,
        minute: instant.minute as u8,
        second: instant.second,
        microseconds: instant.microsecond,
    }
}

/// Reads a host timestamp as an instant in UTC. Fails exactly when its parts
/// name no date and time of day that chrono can hold.
pub fn to_chrono(ts: Timestamp) -> (instant: Result<UtcDateTime, Error>)
    ensures
        ts.valid() ==> instant is Ok && instant->Ok_0@ == instant_of(ts),
        !ts.valid() ==> instant is Err && instant->Err_0@ == ErrorView::TimestampInvalid,
{
    let found = utc_from_civil(
        ts.year,
        ts.month as u32,
        ts.day as u32,
        ts.hour as u32,
        ts.minute as u32,
        ts.second,
        ts.microseconds,
    );
    match found {
        Some(timestamp) => Ok(
            UtcDateTime {
                year: ts.year,
                month: ts.month as u32,
                day: ts.day as u32,
                hour: ts.hour as u32,
                minute: ts.minute as u32,
                second: ts.second,
                microsecond: ts.microseconds,
                timestamp,
            },
        ),
        None => Err(Error::TimestampInvalid),
    }
}

/// Writes an instant as a host timestamp, with its part under a second.
pub fn from_chrono(ts: UtcDateTime) -> (stamp: Timestamp)
    ensures
        stamp == timestamp_of(ts@),
        stamp.month == ts@.month,
        stamp.day == ts@.day,
        stamp.hour == ts@.hour,
        stamp.minute == ts@.minute,
{
    proof {
        use_type_invariant(&ts);
    }
    Timestamp {
        year: ts.year,
        month: ts.month as u8,
        day: ts.day as u8,
        hour: ts.hour as u8,
        minute: ts.minute as u8,
        second: ts.second,
        microseconds: ts.microsecond,
    }
}

} // verus!
