//! Calendar time: seconds since the Unix epoch as a UTC date and time of day
//! (proleptic Gregorian calendar).

use vstd::prelude::*;

verus! {

/// `y` is a leap year.
pub open spec fn is_leap(y: int) -> bool {
    (y % 4 == 0 && y % 100 != 0) || y % 400 == 0
}

/// Number of days of year `y`.
pub open spec fn year_len(y: int) -> int {
    if is_leap(y) { 366 } else { 365 }
}

/// Number of days of month `m` (1–12) of year `y`.
pub open spec fn month_len(y: int, m: int) -> int {
    if m == 2 {
        if is_leap(y) { 29 } else { 28 }
    } else if m == 4 || m == 6 || m == 9 || m == 11 {
        30
    } else {
        31
    }
}

/// Days from 1970-01-01 to the first day of year `y` (from 1970 on).
pub open spec fn days_before_year(y: int) -> int
    decreases y - 1970,
{
    if y <= 1970 { 0 } else { days_before_year(y - 1) + year_len(y - 1) }
}

/// Days from the first day of year `y` to the first day of its month `m` (1–12).
pub open spec fn days_before_month(y: int, m: int) -> int
    decreases m,
{
    if m <= 1 { 0 } else { days_before_month(y, m - 1) + month_len(y, m - 1) }
}

/// Days from 1970-01-01 to the date `y`-`m`-`d`.
pub open spec fn days_of_date(y: int, m: int, d: int) -> int {
    days_before_year(y) + days_before_month(y, m) + d - 1
}

/// A UTC date and time of day.
#[derive(Debug, Clone, Copy, PartialEq, Eq, Structural)]
pub struct UtcTime {
    pub year: u64,
    pub month: u64,
    pub day: u64,
    pub hour: u64,
    pub minute: u64,
    pub second: u64,
}

fn year_len_exec(y: u64) -> (r: u64)
    ensures
        r == year_len(y as int),
{
    if (y % 4 == 0 && y % 100 != 0) || y % 400 == 0 { 366 } else { 365 }
}

fn month_len_exec(y: u64, m: u64) -> (r: u64)
    ensures
        r == month_len(y as int, m as int),
{
    if m == 2 {
        if (y % 4 == 0 && y % 100 != 0) || y % 400 == 0 { 29 } else { 28 }
    } else if m == 4 || m == 6 || m == 9 || m == 11 {
        30
    } else {
        31
    }
}

proof fn lemma_months_of_year(y: int)
    ensures
        days_before_month(y, 12) + month_len(y, 12) == year_len(y),
{
    reveal_with_fuel(days_before_month, 12);
}

/// The date and time of day `secs` seconds after 1970-01-01T00:00:00Z.
pub fn utc_time(secs: u64) -> (r: UtcTime)
    ensures
        r.year >= 1970,
        1 <= r.month <= 12,
        1 <= r.day <= month_len(r.year as int, r.month as int),
        days_of_date(r.year as int, r.month as int, r.day as int) == secs / 86400,
        r.hour == (secs % 86400) / 3600,
        r.minute == (secs % 3600) / 60,
        r.second == secs % 60,
{
    let days = secs / 86400;
    let mut y: u64 = 1970;
    let mut rem: u64 = days;
    let mut len = year_len_exec(y);
    while rem >= len
        invariant
            y >= 1970,
            len == year_len(y as int),
            days_before_year(y as int) + rem == days,
            365 * (y - 1970) + rem <= days,
            days <= u64::MAX / 86400,
        decreases rem,
    {
        rem = rem - len;
        y = y + 1;
        len = year_len_exec(y);
    }
    let ghost in_year = rem;
    let mut m: u64 = 1;
    let mut ml = month_len_exec(y, m);
    proof { lemma_months_of_year(y as int); }
    while rem >= ml
        invariant
            1 <= m <= 12,
            ml == month_len(y as int, m as int),
            days_before_month(y as int, m as int) + rem == in_year,
            in_year < year_len(y as int),
            days_before_month(y as int, 12) + month_len(y as int, 12) == year_len(y as int),
        decreases rem,
    {
        if m == 12 {
            assert(false);
        }
        rem = rem - ml;
        m = m + 1;
        ml = month_len_exec(y, m);
    }
    let r = UtcTime {
        year: y,
        month: m,
        day: rem + 1,
        hour: (secs % 86400) / 3600,
        minute: (secs % 3600) / 60,
        second: secs % 60,
    };
    r
}

} // verus!
