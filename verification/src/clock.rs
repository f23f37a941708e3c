//! Calendar dates and times of day, and the calls into `chrono` that compute with them.

use vstd::prelude::*;
use crate::calendar::{
    day_number, is_leap_year, is_valid_date, month_length, ordinal_of, weekday_of, MAX_YEAR, MIN_YEAR,
};

verus! {

/// A day of the proleptic Gregorian calendar, within the years that `chrono` supports.
#[derive(Clone, Copy, PartialEq, Eq, Debug)]
pub struct CalendarDate {
    year: i32,
    month: u32,
    day: u32,
}

/// A time of day, held as the number of whole seconds since midnight.
#[derive(Clone, Copy, PartialEq, Eq, Debug)]
pub struct TimeOfDay {
    secs: u32,
}

/// A local wall-clock reading: a date and a time of day.
#[derive(Clone, Copy, PartialEq, Eq, Debug)]
pub struct LocalDateTime {
    pub date: CalendarDate,
    pub time: TimeOfDay,
}

impl CalendarDate {
    #[verifier::type_invariant]
    spec fn inv(self) -> bool {
        is_valid_date(self.year as int, self.month as int, self.day as int)
    }

    pub closed spec fn y(self) -> int {
        self.year as int
    }

    pub closed spec fn m(self) -> int {
        self.month as int
    }

    pub closed spec fn d(self) -> int {
        self.day as int
    }

    /// Day count of this date (January 1 of year 1 is day 1).
    pub open spec fn number(self) -> int {
        day_number(self.y(), self.m(), self.d())
    }

    /// The date `year-month-day`, if that day exists and its year is supported.
    pub fn from_ymd_opt(year: i32, month: u32, day: u32) -> (r: Option<CalendarDate>)
        ensures
            r is Some <==> is_valid_date(year as int, month as int, day as int),
            r matches Some(c) ==> c.y() == year && c.m() == month && c.d() == day,
    {
        if naive_date_exists(year, month, day) {
            Some(CalendarDate { year, month, day })
        } else {
            None
        }
    }

    pub fn year(&self) -> (r: i32)
        ensures
            r == self.y(),
            MIN_YEAR <= r <= MAX_YEAR,
            is_valid_date(self.y(), self.m(), self.d()),
    {
        proof {
            use_type_invariant(self);
        }
        self.year
    }

    pub fn month(&self) -> (r: u32)
        ensures
            r == self.m(),
            1 <= r <= 12,
            is_valid_date(self.y(), self.m(), self.d()),
    {
        proof {
            use_type_invariant(self);
        }
        self.month
    }

    pub fn day(&self) -> (r: u32)
        ensures
            r == self.d(),
            1 <= r <= 31,
            r <= month_length(self.y(), self.m()),
            is_valid_date(self.y(), self.m(), self.d()),
    {
        proof {
            use_type_invariant(self);
        }
        self.day
    }

    /// Day of the week, counted from Monday = 0.
    pub fn weekday_from_monday(&self) -> (r: u32)
        ensures
            r == weekday_of(self.y(), self.m(), self.d()),
            r < 7,
    {
        naive_weekday_from_monday(self)
    }

    /// Day of the year, counted from January 1 = 1.
    pub fn ordinal(&self) -> (r: u32)
        ensures
            r == ordinal_of(self.y(), self.m(), self.d()),
    {
        naive_ordinal(self)
    }

    /// Whether the year of this date is a leap year.
    pub fn leap_year(&self) -> (r: bool)
        ensures
            r == is_leap_year(self.y()),
    {
        naive_leap_year(self)
    }

    /// Number of days from `earlier` to `self` (negative when `earlier` comes later).
    pub fn days_since(&self, earlier: &CalendarDate) -> (r: i64)
        ensures
            r == self.number() - earlier.number(),
    {
        naive_days_between(earlier, self)
    }
}

impl TimeOfDay {
    #[verifier::type_invariant]
    spec fn inv(self) -> bool {
        self.secs < 86400
    }

    /// Whole seconds since midnight.
    pub closed spec fn secs(self) -> int {
        self.secs as int
    }

    pub fn num_seconds_from_midnight(&self) -> (r: u32)
        ensures
            r == self.secs(),
            r < 86400,
    {
        proof {
            use_type_invariant(self);
        }
        self.secs
    }

    /// The time `hour:min:sec`, if each part is in range.
    pub fn from_hms_opt(hour: u32, min: u32, sec: u32) -> (r: Option<TimeOfDay>)
        ensures
            r is Some <==> (hour < 24 && min < 60 && sec < 60),
            r matches Some(t) ==> t.secs() == hour * 3600 + min * 60 + sec,
    {
        naive_time_from_hms(hour, min, sec)
    }

    pub fn hour(&self) -> (r: u32)
        ensures
            r == self.secs() / 3600,
            r < 24,
    {
        self.num_seconds_from_midnight() / 3600
    }

    pub fn minute(&self) -> (r: u32)
        ensures
            r == (self.secs() / 60) % 60,
            r < 60,
    {
        (self.num_seconds_from_midnight() / 60) % 60
    }

    pub fn second(&self) -> (r: u32)
        ensures
            r == self.secs() % 60,
            r < 60,
    {
        self.num_seconds_from_midnight() % 60
    }
}

impl LocalDateTime {
    /// The reading `year-month-day hour:min:sec`, if the date exists and the time is in range.
    pub fn from_ymd_hms(year: i32, month: u32, day: u32, hour: u32, min: u32, sec: u32) -> (r:
        Option<LocalDateTime>)
        ensures
            r is Some <==> (is_valid_date(year as int, month as int, day as int) && hour < 24 && min
                < 60 && sec < 60),
            r matches Some(t) ==> t.date.y() == year && t.date.m() == month && t.date.d() == day
                && t.time.secs() == hour * 3600 + min * 60 + sec,
    {
        match (CalendarDate::from_ymd_opt(year, month, day), TimeOfDay::from_hms_opt(hour, min, sec)) {
            (Some(date), Some(time)) => Some(LocalDateTime { date, time }),
            _ => None,
        }
    }
}

/// Result of `chrono::NaiveTime::parse_from_str(s, fmt)`, read as whole seconds since
/// midnight (`None` where parsing fails).
pub uninterp spec fn chrono_time_parse(s: Seq<char>, fmt: Seq<char>) -> Option<int>;

/// Result of `chrono::NaiveDate::parse_from_str(s, fmt)`, read as (year, month, day)
/// (`None` where parsing fails).
pub uninterp spec fn chrono_date_parse(s: Seq<char>, fmt: Seq<char>) -> Option<(int, int, int)>;

/// Calls `chrono::NaiveDate::from_ymd_opt`, which returns a date exactly when the month is
/// 1..=12, the day exists in that month of the proleptic Gregorian calendar, and the year is
/// within chrono's range (`MIN_YEAR..=MAX_YEAR`).
#[verifier::external_body]
fn naive_date_exists(year: i32, month: u32, day: u32) -> (r: bool)
    ensures
        r == is_valid_date(year as int, month as int, day as int),
{
    chrono::NaiveDate::from_ymd_opt(year, month, day).is_some()
}

/// Calls `chrono::NaiveDate::signed_duration_since` and reads the `TimeDelta` in whole days
/// (`TimeDelta::num_days`): the claim is that the result is the difference of the two day
/// counts of the proleptic Gregorian calendar.
#[verifier::external_body]
fn naive_days_between(from: &CalendarDate, to: &CalendarDate) -> (r: i64)
    ensures
        r == to.number() - from.number(),
{
    let a = chrono::NaiveDate::from_ymd_opt(from.year, from.month, from.day).unwrap();
    let b = chrono::NaiveDate::from_ymd_opt(to.year, to.month, to.day).unwrap();
    b.signed_duration_since(a).num_days()
}

/// Calls `chrono::Datelike::weekday` and reads it with `Weekday::num_days_from_monday`: the
/// claim is that the result is the day of the week (Monday = 0) of the proleptic Gregorian
/// calendar, in which January 1 of year 1 was a Monday.
#[verifier::external_body]
fn naive_weekday_from_monday(date: &CalendarDate) -> (r: u32)
    ensures
        r == weekday_of(date.y(), date.m(), date.d()),
{
    let nd = chrono::NaiveDate::from_ymd_opt(date.year, date.month, date.day).unwrap();
    chrono::Datelike::weekday(&nd).num_days_from_monday()
}

/// Calls `chrono::Datelike::ordinal`: the claim is that the result is the day of the year,
/// January 1 being 1.
#[verifier::external_body]
fn naive_ordinal(date: &CalendarDate) -> (r: u32)
    ensures
        r == ordinal_of(date.y(), date.m(), date.d()),
{
    let nd = chrono::NaiveDate::from_ymd_opt(date.year, date.month, date.day).unwrap();
    chrono::Datelike::ordinal(&nd)
}

/// Calls `chrono::NaiveDate::leap_year`: the claim is that the result is the Gregorian leap
/// year rule applied to the date's year.
#[verifier::external_body]
fn naive_leap_year(date: &CalendarDate) -> (r: bool)
    ensures
        r == is_leap_year(date.y()),
{
    let nd = chrono::NaiveDate::from_ymd_opt(date.year, date.month, date.day).unwrap();
    nd.leap_year()
}

/// Calls `chrono::NaiveTime::from_hms_opt`, which returns a time exactly when the hour is below
/// 24, the minute below 60 and the second below 60; the time is read as seconds since midnight
/// (`Timelike::num_seconds_from_midnight`).
#[verifier::external_body]
fn naive_time_from_hms(hour: u32, min: u32, sec: u32) -> (r: Option<TimeOfDay>)
    ensures
        r is Some <==> (hour < 24 && min < 60 && sec < 60),
        r matches Some(t) ==> t.secs() == hour * 3600 + min * 60 + sec,
{
    match chrono::NaiveTime::from_hms_opt(hour, min, sec) {
        Some(t) => Some(TimeOfDay { secs: chrono::Timelike::num_seconds_from_midnight(&t) }),
        None => None,
    }
}

/// Calls `chrono::NaiveTime::parse_from_str`; what it accepts is left to the name
/// `chrono_time_parse`. The time it yields is read as seconds since midnight, which chrono keeps
/// below 86400 (that bound is carried by `TimeOfDay`).
#[verifier::external_body]
pub(crate) fn naive_time_parse(s: &str, fmt: &str) -> (r: Option<TimeOfDay>)
    ensures
        match r {
            Some(t) => chrono_time_parse(s@, fmt@) == Some(t.secs()),
            None => chrono_time_parse(s@, fmt@) is None,
        },
{
    match chrono::NaiveTime::parse_from_str(s, fmt) {
        Ok(t) => Some(TimeOfDay { secs: chrono::Timelike::num_seconds_from_midnight(&t) }),
        Err(_) => None,
    }
}

/// Calls `chrono::NaiveDate::parse_from_str`; what it accepts is left to the name
/// `chrono_date_parse`. Every date it yields is a day of chrono's calendar range, which
/// `CalendarDate` carries as its invariant.
#[verifier::external_body]
pub(crate) fn naive_date_parse(s: &str, fmt: &str) -> (r: Option<CalendarDate>)
    ensures
        match r {
            Some(d) => chrono_date_parse(s@, fmt@) == Some((d.y(), d.m(), d.d())),
            None => chrono_date_parse(s@, fmt@) is None,
        },
{
    match chrono::NaiveDate::parse_from_str(s, fmt) {
        Ok(d) => Some(CalendarDate {
            year: chrono::Datelike::year(&d),
            month: chrono::Datelike::month(&d),
            day: chrono::Datelike::day(&d),
        }),
        Err(_) => None,
    }
}

} // verus!
