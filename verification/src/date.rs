//! Dates that exist: a year, a month and a day of that month.

use crate::calendar::{is_leap_year, Month, YearMonth};
use vstd::prelude::*;

verus! {

/// A year, a month and a day number as mathematical values: what a `Date`
/// stands for in contracts.
pub struct Ymd {
    pub year: int,
    pub month: Month,
    pub day: int,
}

impl Ymd {
    /// The day exists: its number lies between 1 and the length of its month.
    pub open spec fn is_valid(self) -> bool {
        1 <= self.day <= self.month.spec_days_in_month(is_leap_year(self.year))
    }
}

/// What `Date::ymd` makes of three numbers: the date they name, if the day
/// exists.
pub open spec fn spec_ymd(year: int, month: Month, day: int) -> Option<Ymd> {
    let ymd = Ymd { year, month, day };
    if ymd.is_valid() {
        Some(ymd)
    } else {
        None
    }
}

/// The model of an optional date.
pub open spec fn date_view(date: Option<Date>) -> Option<Ymd> {
    match date {
        Some(d) => Some(d@),
        None => None,
    }
}

/// Why three numbers name no date.
#[derive(Clone, Copy, Debug, PartialEq, Eq, Structural)]
pub enum DateError {
    /// The month has no day of that number.
    OutOfRange,
}

/// A day of the calendar. Every value names a day that exists.
#[derive(Clone, Copy, Debug, PartialEq, Eq, Structural)]
pub struct Date {
    year: i64,
    month: Month,
    day: i8,
}

impl View for Date {
    type V = Ymd;

    closed spec fn view(&self) -> Ymd {
        Ymd { year: self.year as int, month: self.month, day: self.day as int }
    }
}

impl Date {
    #[verifier::type_invariant]
    closed spec fn exists_in_calendar(self) -> bool {
        self@.is_valid()
    }

    /// Makes the date of the given day, or fails with `OutOfRange` where the
    /// month has no such day.
    pub fn ymd(year: i64, month: Month, day: i8) -> (r: Result<Date, DateError>)
        ensures
            match r {
                Ok(date) => spec_ymd(year as int, month, day as int) == Some(date@),
                Err(e) => spec_ymd(year as int, month, day as int) is None && e == DateError::OutOfRange,
            },
    {
        let in_month = YearMonth { year, month };
        if 1 <= day && day <= in_month.day_count() {
            Ok(Date { year, month, day })
        } else {
            Err(DateError::OutOfRange)
        }
    }

    /// The year.
    pub fn year(&self) -> (y: i64)
        ensures
            y == self@.year,
    {
        self.year
    }

    /// The month.
    pub fn month(&self) -> (m: Month)
        ensures
            m == self@.month,
    {
        self.month
    }

    /// The day of the month, which the month has.
    pub fn day(&self) -> (d: i8)
        ensures
            d == self@.day,
            self@.is_valid(),
    {
        proof {
            use_type_invariant(self);
        }
        self.day
    }

    /// Two dates that stand for the same day are the same date.
    pub proof fn lemma_view_injective(a: Date, b: Date)
        requires
            a@ == b@,
        ensures
            a == b,
    {
    }
}

} // verus!
