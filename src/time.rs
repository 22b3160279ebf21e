//! Points in time of varying precision, and their resolution to one calendar date.

use crate::date::{is_valid_ymd, CalendarDate};
use crate::error::TimelineError;
use crate::ident::Identifier;
use vstd::prelude::*;

verus! {

/// A season of a year, anchored at the first day of its first month.
#[derive(Clone, Copy, Debug, PartialEq, Eq, Structural)]
pub enum Season {
    Winter,
    Spring,
    Summer,
    Fall,
}

impl Season {
    /// The month whose first day anchors the season (winter belongs to the
    /// December that opens it).
    pub open spec fn anchor_month(self) -> u8 {
        match self {
            Season::Winter => 12,
            Season::Spring => 3,
            Season::Summer => 6,
            Season::Fall => 9,
        }
    }
}

impl Default for Season {
    fn default() -> (r: Season)
        ensures
            r == Season::Summer,
    {
        Season::Summer
    }
}

/// A month of the year.
#[derive(Clone, Copy, Debug, PartialEq, Eq, Structural)]
pub enum Month {
    January,
    February,
    March,
    April,
    May,
    June,
    July,
    August,
    September,
    October,
    November,
    December,
}

impl Month {
    /// The month's number, from 1 for January to 12 for December.
    pub open spec fn number(self) -> u8 {
        match self {
            Month::January => 1,
            Month::February => 2,
            Month::March => 3,
            Month::April => 4,
            Month::May => 5,
            Month::June => 6,
            Month::July => 7,
            Month::August => 8,
            Month::September => 9,
            Month::October => 10,
            Month::November => 11,
            Month::December => 12,
        }
    }

    /// The month with number `n`; numbers outside 1 to 12 give January.
    pub open spec fn of_number(n: u8) -> Month {
        if n == 2 {
            Month::February
        } else if n == 3 {
            Month::March
        } else if n == 4 {
            Month::April
        } else if n == 5 {
            Month::May
        } else if n == 6 {
            Month::June
        } else if n == 7 {
            Month::July
        } else if n == 8 {
            Month::August
        } else if n == 9 {
            Month::September
        } else if n == 10 {
            Month::October
        } else if n == 11 {
            Month::November
        } else if n == 12 {
            Month::December
        } else {
            Month::January
        }
    }

    /// The month's number, from 1 for January to 12 for December.
    pub fn to_number(&self) -> (r: u8)
        ensures
            r == self.number(),
            1 <= r <= 12,
    {
        match self {
            Month::January => 1,
            Month::February => 2,
            Month::March => 3,
            Month::April => 4,
            Month::May => 5,
            Month::June => 6,
            Month::July => 7,
            Month::August => 8,
            Month::September => 9,
            Month::October => 10,
            Month::November => 11,
            Month::December => 12,
        }
    }
}

impl Default for Month {
    fn default() -> (r: Month)
        ensures
            r == Month::June,
    {
        Month::June
    }
}

impl From<u8> for Month {
    fn from(value: u8) -> (r: Month) {
        match value {
            1 => Month::January,
            2 => Month::February,
            3 => Month::March,
            4 => Month::April,
            5 => Month::May,
            6 => Month::June,
            7 => Month::July,
            8 => Month::August,
            9 => Month::September,
            10 => Month::October,
            11 => Month::November,
            12 => Month::December,
            _ => Month::January,
        }
    }
}

impl vstd::std_specs::convert::FromSpecImpl<u8> for Month {
    open spec fn obeys_from_spec() -> bool {
        true
    }

    open spec fn from_spec(v: u8) -> Month {
        Month::of_number(v)
    }
}

/// Qualifiers of an approximate point in time: before, after or during a reference.
#[derive(Clone, Copy, Debug, PartialEq, Eq, Structural)]
pub struct Approximated {
    pub after: bool,
    pub before: bool,
    pub during: bool,
}

impl Default for Approximated {
    fn default() -> (r: Approximated)
        ensures
            !r.after && !r.before && !r.during,
    {
        Approximated { after: false, before: false, during: false }
    }
}

/// An exact instant: a day and a time of that day.
#[derive(Clone, Copy, Debug, PartialEq, Eq, Structural)]
pub struct DateTime {
    pub date: CalendarDate,
    pub hour: u8,
    pub minute: u8,
    pub second: u8,
}

/// A point in time, at one of several levels of precision.
#[derive(Clone, Copy, Debug, PartialEq, Eq, Structural)]
pub enum PointInTime {
    /// Before, after or during something; not resolvable.
    Approximated(Approximated),
    /// An age of the person with the given identifier; not resolvable.
    ChronologicalAge(i8, Identifier),
    /// A span of days before a given day; not resolvable.
    TimeAgo { at: CalendarDate, days: i64 },
    /// An exact instant.
    Time(DateTime),
    /// A calendar day.
    Day(CalendarDate),
    /// A month of a year.
    Month(i32, Month),
    /// A season of a year.
    Season(i32, Season),
    /// A year.
    Year(i32),
    /// Not yet known.
    Undetermined,
}

impl PointInTime {
    /// The year, month and day that the point in time stands for, where its kind
    /// has one.
    pub open spec fn anchor(self) -> Option<(i32, u8, u8)> {
        match self {
            PointInTime::Time(t) => Some((t.date.year, t.date.month, t.date.day)),
            PointInTime::Day(d) => Some((d.year, d.month, d.day)),
            PointInTime::Month(y, m) => Some((y, m.number(), 1)),
            PointInTime::Season(y, s) => Some((y, s.anchor_month(), 1)),
            PointInTime::Year(y) => Some((y, 1, 1)),
            _ => None,
        }
    }

    /// The calendar date the point in time resolves to.
    pub open spec fn resolved(self) -> Result<CalendarDate, TimelineError> {
        match self.anchor() {
            None => Err(TimelineError::UnresolvedTime),
            Some(a) => if is_valid_ymd(a.0 as int, a.1 as int, a.2 as int) {
                Ok(CalendarDate { year: a.0, month: a.1, day: a.2 })
            } else {
                Err(TimelineError::InvalidDate)
            },
        }
    }

    /// Resolves the point in time to its calendar date: an instant to its day, a
    /// month to its first day, a season to the first day of its anchor month, a
    /// year to January 1. The other kinds fail with `UnresolvedTime`; a day that
    /// does not exist fails with `InvalidDate`.
    pub fn begins(&self) -> (r: Result<CalendarDate, TimelineError>)
        ensures
            r == self.resolved(),
            r.is_ok() ==> r->Ok_0.wf(),
    {
        let anchor: Option<(i32, u8, u8)> = match self {
            PointInTime::Time(t) => Some((t.date.year, t.date.month, t.date.day)),
            PointInTime::Day(d) => Some((d.year, d.month, d.day)),
            PointInTime::Month(y, m) => Some((*y, m.to_number(), 1)),
            PointInTime::Season(y, s) => {
                let month: u8 = match s {
                    Season::Winter => 12,
                    Season::Spring => 3,
                    Season::Summer => 6,
                    Season::Fall => 9,
                };
                Some((*y, month, 1))
            },
            PointInTime::Year(y) => Some((*y, 1, 1)),
            _ => None,
        };
        match anchor {
            None => Err(TimelineError::UnresolvedTime),
            Some((year, month, day)) => match CalendarDate::from_ymd(year, month, day) {
                Some(d) => Ok(d),
                None => Err(TimelineError::InvalidDate),
            },
        }
    }
}

impl Default for PointInTime {
    fn default() -> (r: PointInTime)
        ensures
            r == PointInTime::Undetermined,
    {
        PointInTime::Undetermined
    }
}

impl From<CalendarDate> for PointInTime {
    fn from(value: CalendarDate) -> (r: PointInTime) {
        PointInTime::Day(value)
    }
}

impl vstd::std_specs::convert::FromSpecImpl<CalendarDate> for PointInTime {
    open spec fn obeys_from_spec() -> bool {
        true
    }

    open spec fn from_spec(v: CalendarDate) -> PointInTime {
        PointInTime::Day(v)
    }
}

impl From<(i32, u8)> for PointInTime {
    fn from(value: (i32, u8)) -> (r: PointInTime) {
        PointInTime::Month(value.0, Month::from(value.1))
    }
}

impl vstd::std_specs::convert::FromSpecImpl<(i32, u8)> for PointInTime {
    open spec fn obeys_from_spec() -> bool {
        true
    }

    open spec fn from_spec(v: (i32, u8)) -> PointInTime {
        PointInTime::Month(v.0, Month::of_number(v.1))
    }
}

impl From<i32> for PointInTime {
    fn from(value: i32) -> (r: PointInTime) {
        PointInTime::Year(value)
    }
}

impl vstd::std_specs::convert::FromSpecImpl<i32> for PointInTime {
    open spec fn obeys_from_spec() -> bool {
        true
    }

    open spec fn from_spec(v: i32) -> PointInTime {
        PointInTime::Year(v)
    }
}

/// How a point of interest ends.
#[derive(Clone, Copy, Debug, PartialEq, Eq, Structural)]
pub enum Ending {
    /// At a point in time.
    At(PointInTime),
    /// After a duration; open ended.
    After,
    /// Upon another event that it is linked to.
    Upon,
    /// Not yet known.
    Undetermined,
}

impl Default for Ending {
    fn default() -> (r: Ending)
        ensures
            r == Ending::Undetermined,
    {
        Ending::Undetermined
    }
}

} // verus!
