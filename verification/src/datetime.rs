//! Naive calendar dates, wall-clock times and their combination, with the
//! calendar rules (month lengths, leap years) and a total order.

use vstd::prelude::*;

verus! {

/// A calendar date: year, month (1..=12), day (1..=days of that month).
#[derive(Clone, Copy, PartialEq, Eq, Structural, Debug)]
pub struct Date {
    pub year: u32,
    pub month: u32,
    pub day: u32,
}

/// A wall-clock time of day: hour (0..=23), minute (0..=59).
#[derive(Clone, Copy, PartialEq, Eq, Structural, Debug)]
pub struct TimeOfDay {
    pub hour: u32,
    pub minute: u32,
}

/// A naive local timestamp: a date together with a time of day.
#[derive(Clone, Copy, PartialEq, Eq, Structural, Debug)]
pub struct DateTime {
    pub date: Date,
    pub time: TimeOfDay,
}

pub open spec fn spec_is_leap_year(year: u32) -> bool {
    year % 4 == 0 && (year % 100 != 0 || year % 400 == 0)
}

pub open spec fn spec_days_in_month(year: u32, month: u32) -> u32 {
    if month == 2 {
        if spec_is_leap_year(year) {
            29
        } else {
            28
        }
    } else if month == 4 || month == 6 || month == 9 || month == 11 {
        30
    } else {
        31
    }
}

/// The calendar admits this date.
pub open spec fn date_valid(d: Date) -> bool {
    &&& 1 <= d.month <= 12
    &&& 1 <= d.day <= spec_days_in_month(d.year, d.month)
}

/// The clock admits this time of day.
pub open spec fn time_valid(t: TimeOfDay) -> bool {
    t.hour <= 23 && t.minute <= 59
}

pub open spec fn datetime_valid(dt: DateTime) -> bool {
    date_valid(dt.date) && time_valid(dt.time)
}

pub fn is_leap_year(year: u32) -> (r: bool)
    ensures
        r == spec_is_leap_year(year),
{
    year % 4 == 0 && (year % 100 != 0 || year % 400 == 0)
}

pub fn days_in_month(year: u32, month: u32) -> (r: u32)
    ensures
        r == spec_days_in_month(year, month),
{
    if month == 2 {
        if is_leap_year(year) {
            29
        } else {
            28
        }
    } else if month == 4 || month == 6 || month == 9 || month == 11 {
        30
    } else {
        31
    }
}

/// `a` is on or before `b` in the calendar order: by year, then month, then day.
pub open spec fn spec_date_le(a: Date, b: Date) -> bool {
    if a.year != b.year {
        a.year < b.year
    } else if a.month != b.month {
        a.month < b.month
    } else {
        a.day <= b.day
    }
}

/// `a` is at or before `b` on the clock: by hour, then minute.
pub open spec fn spec_time_le(a: TimeOfDay, b: TimeOfDay) -> bool {
    if a.hour != b.hour {
        a.hour < b.hour
    } else {
        a.minute <= b.minute
    }
}

/// `a` is at or before `b`: by date, then time of day.
pub open spec fn spec_datetime_le(a: DateTime, b: DateTime) -> bool {
    if a.date != b.date {
        spec_date_le(a.date, b.date)
    } else {
        spec_time_le(a.time, b.time)
    }
}

pub fn date_le(a: Date, b: Date) -> (r: bool)
    ensures
        r == spec_date_le(a, b),
{
    if a.year != b.year {
        a.year < b.year
    } else if a.month != b.month {
        a.month < b.month
    } else {
        a.day <= b.day
    }
}

pub fn time_le(a: TimeOfDay, b: TimeOfDay) -> (r: bool)
    ensures
        r == spec_time_le(a, b),
{
    if a.hour != b.hour {
        a.hour < b.hour
    } else {
        a.minute <= b.minute
    }
}

pub fn datetime_le(a: DateTime, b: DateTime) -> (r: bool)
    ensures
        r == spec_datetime_le(a, b),
{
    if a.date.year != b.date.year || a.date.month != b.date.month || a.date.day != b.date.day {
        date_le(a.date, b.date)
    } else {
        time_le(a.time, b.time)
    }
}

/// The timestamp order is total: any two timestamps compare one way or the other.
pub proof fn lemma_datetime_le_total(a: DateTime, b: DateTime)
    ensures
        spec_datetime_le(a, b) || spec_datetime_le(b, a),
        spec_datetime_le(a, b) && spec_datetime_le(b, a) ==> a == b,
{
}

/// The timestamp order is transitive.
pub proof fn lemma_datetime_le_trans(a: DateTime, b: DateTime, c: DateTime)
    requires
        spec_datetime_le(a, b),
        spec_datetime_le(b, c),
    ensures
        spec_datetime_le(a, c),
{
}

/// The date of the day after `d`.
pub open spec fn spec_next_day(d: Date) -> Date {
    if d.day < spec_days_in_month(d.year, d.month) {
        Date { year: d.year, month: d.month, day: (d.day + 1) as u32 }
    } else if d.month < 12 {
        Date { year: d.year, month: (d.month + 1) as u32, day: 1 }
    } else {
        Date { year: (d.year + 1) as u32, month: 1, day: 1 }
    }
}

pub fn next_day(d: Date) -> (r: Date)
    requires
        date_valid(d),
        d.year < u32::MAX,
    ensures
        r == spec_next_day(d),
        date_valid(r),
{
    let dim = days_in_month(d.year, d.month);
    if d.day < dim {
        Date { year: d.year, month: d.month, day: d.day + 1 }
    } else if d.month < 12 {
        Date { year: d.year, month: d.month + 1, day: 1 }
    } else {
        Date { year: d.year + 1, month: 1, day: 1 }
    }
}

} // verus!
