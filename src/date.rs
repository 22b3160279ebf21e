//! Calendar dates in the proleptic Gregorian calendar, as plain values.

use chrono::Datelike;
use vstd::prelude::*;

verus! {

/// Earliest year that chrono's `NaiveDate` can hold.
pub const MIN_YEAR: i32 = -262143;

/// Latest year that chrono's `NaiveDate` can hold.
pub const MAX_YEAR: i32 = 262142;

pub open spec fn is_leap_year(year: int) -> bool {
    (year % 4 == 0 && year % 100 != 0) || year % 400 == 0
}

pub open spec fn days_in_month(year: int, month: int) -> int {
    if month == 2 {
        if is_leap_year(year) {
            29
        } else {
            28
        }
    } else if month == 4 || month == 6 || month == 9 || month == 11 {
        30
    } else {
        31
    }
}

/// Days of the year that come before the first day of `month`.
pub open spec fn days_before_month(year: int, month: int) -> int
    decreases month,
{
    if month <= 1 {
        0
    } else {
        days_before_month(year, month - 1) + days_in_month(year, month - 1)
    }
}

/// Day number in the proleptic Gregorian calendar, January 1 of year 1 being day 1.
pub open spec fn days_from_ce(year: int, month: int, day: int) -> int {
    let p = year - 1;
    365 * p + p / 4 - p / 100 + p / 400 + days_before_month(year, month) + day
}

/// The year, month and day name a day that exists and that chrono can represent.
pub open spec fn is_valid_ymd(year: int, month: int, day: int) -> bool {
    &&& MIN_YEAR <= year <= MAX_YEAR
    &&& 1 <= month <= 12
    &&& 1 <= day <= days_in_month(year, month)
}

/// Strict chronological order of two dates given as year, month and day.
pub open spec fn ymd_before(a: (int, int, int), b: (int, int, int)) -> bool {
    a.0 < b.0 || (a.0 == b.0 && (a.1 < b.1 || (a.1 == b.1 && a.2 < b.2)))
}

/// A day of the calendar.
#[derive(Clone, Copy, Debug, PartialEq, Eq, Hash, Structural)]
pub struct CalendarDate {
    pub year: i32,
    pub month: u8,
    pub day: u8,
}

impl CalendarDate {
    pub open spec fn wf(&self) -> bool {
        is_valid_ymd(self.year as int, self.month as int, self.day as int)
    }

    pub open spec fn ymd(&self) -> (int, int, int) {
        (self.year as int, self.month as int, self.day as int)
    }

    pub open spec fn day_number(&self) -> int {
        days_from_ce(self.year as int, self.month as int, self.day as int)
    }

    pub open spec fn before(&self, other: CalendarDate) -> bool {
        ymd_before(self.ymd(), other.ymd())
    }

    /// The date with the given year, month and day, if that day exists.
    pub fn from_ymd(year: i32, month: u8, day: u8) -> (r: Option<CalendarDate>)
        ensures
            r.is_some() <==> is_valid_ymd(year as int, month as int, day as int),
            r.is_some() ==> r == Some(CalendarDate { year, month, day }),
    {
        if chrono_has_date(year, month, day) {
            Some(CalendarDate { year, month, day })
        } else {
            None
        }
    }

    /// Whether `self` comes strictly before `other`.
    pub fn is_before(&self, other: &CalendarDate) -> (r: bool)
        ensures
            r == self.before(*other),
    {
        self.year < other.year || (self.year == other.year && (self.month < other.month || (
        self.month == other.month && self.day < other.day)))
    }

    /// The later date minus the earlier one, in days.
    pub fn days_since(&self, earlier: &CalendarDate) -> (r: i64)
        requires
            self.wf(),
            earlier.wf(),
        ensures
            r == self.day_number() - earlier.day_number(),
    {
        let a = day_number_of(self);
        let b = day_number_of(earlier);
        a as i64 - b as i64
    }
}

/// Relies on chrono's `NaiveDate::from_ymd_opt`: it returns `None` exactly when
/// the day does not exist, the month or day is out of range, or the year lies
/// outside `MIN_YEAR..=MAX_YEAR`.
#[verifier::external_body]
fn chrono_has_date(year: i32, month: u8, day: u8) -> (r: bool)
    ensures
        r == is_valid_ymd(year as int, month as int, day as int),
{
    chrono::NaiveDate::from_ymd_opt(year, month as u32, day as u32).is_some()
}

/// Relies on chrono's `Datelike::num_days_from_ce`: the day count of the proleptic
/// Gregorian calendar with January 1 of year 1 as day 1.
#[verifier::external_body]
fn day_number_of(d: &CalendarDate) -> (r: i32)
    requires
        d.wf(),
    ensures
        r == d.day_number(),
{
    chrono::NaiveDate::from_ymd_opt(d.year, d.month as u32, d.day as u32).unwrap().num_days_from_ce()
}

/// Relies on chrono's `Local::now` and `DateTime::date_naive`: today's date in
/// the machine's time zone, which chrono always holds as an existing day.
#[verifier::external_body]
pub(crate) fn local_today() -> (r: CalendarDate)
    ensures
        r.wf(),
{
    let d = chrono::Local::now().date_naive();
    CalendarDate { year: d.year(), month: d.month() as u8, day: d.day() as u8 }
}

/// The days before a month's first day are at most 31 for each month before it.
pub proof fn lemma_days_before_month_bounds(year: int, month: int)
    requires
        1 <= month <= 12,
    ensures
        0 <= days_before_month(year, month) <= 31 * (month - 1),
    decreases month,
{
    if month > 1 {
        lemma_days_before_month_bounds(year, month - 1);
    }
}

/// The day number of a date that chrono can represent stays within a hundred
/// million days of the calendar's start.
pub proof fn lemma_day_number_bounds(d: CalendarDate)
    requires
        d.wf(),
    ensures
        -100_000_000 <= d.day_number() <= 100_000_000,
{
    lemma_days_before_month_bounds(d.year as int, d.month as int);
}

/// The days of the months before `later` include all of `earlier`'s month.
pub proof fn lemma_days_before_month_grows(year: int, earlier: int, later: int)
    requires
        1 <= earlier < later <= 13,
    ensures
        days_before_month(year, later) >= days_before_month(year, earlier) + days_in_month(
            year,
            earlier,
        ),
    decreases later - earlier,
{
    if later > earlier + 1 {
        lemma_days_before_month_grows(year, earlier, later - 1);
    }
}

/// A year has 365 days, and 366 in a leap year.
pub proof fn lemma_year_length(year: int)
    ensures
        days_from_ce(year + 1, 1, 1) - days_from_ce(year, 1, 1) == if is_leap_year(year) {
            366int
        } else {
            365int
        },
        days_before_month(year, 13) == if is_leap_year(year) {
            366int
        } else {
            365int
        },
{
    assert(year / 4 - (year - 1) / 4 == if year % 4 == 0 {
        1int
    } else {
        0int
    });
    assert(year / 100 - (year - 1) / 100 == if year % 100 == 0 {
        1int
    } else {
        0int
    });
    assert(year / 400 - (year - 1) / 400 == if year % 400 == 0 {
        1int
    } else {
        0int
    });
    reveal_with_fuel(days_before_month, 13);
}

/// January 1 of a later year comes after every day of an earlier year.
pub proof fn lemma_later_year_later_days(a: CalendarDate, year: int)
    requires
        a.wf(),
        a.year < year,
    ensures
        a.day_number() < days_from_ce(year, 1, 1),
    decreases year - a.year,
{
    if year == a.year + 1 {
        lemma_year_length(a.year as int);
        if a.month < 12 {
            lemma_days_before_month_grows(a.year as int, a.month as int, 13);
        }
        reveal_with_fuel(days_before_month, 13);
    } else {
        lemma_later_year_later_days(a, year - 1);
        lemma_year_length(year - 1);
    }
}

/// Day numbers follow the chronological order of dates.
pub proof fn lemma_day_number_monotone(a: CalendarDate, b: CalendarDate)
    requires
        a.wf(),
        b.wf(),
        a.before(b),
    ensures
        a.day_number() < b.day_number(),
{
    if a.year < b.year {
        lemma_later_year_later_days(a, b.year as int);
        lemma_days_before_month_bounds(b.year as int, b.month as int);
    } else if a.month < b.month {
        lemma_days_before_month_grows(a.year as int, a.month as int, b.month as int);
    }
}

} // verus!
