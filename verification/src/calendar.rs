//! Months, leap years and month lengths of the proleptic Gregorian calendar.

use vstd::prelude::*;

verus! {

/// A month of the year.
#[derive(Clone, Copy, Debug, PartialEq, Eq, Structural)]
pub enum Month {
    January,
    February,
    March,
    April,
    May,
    June,
    July,
    August,
    September,
    October,
    November,
    December,
}

/// Whether `year` has a 29th of February: every fourth year has one, except
/// the century years that 400 does not divide.
pub open spec fn is_leap_year(year: int) -> bool {
    year % 4 == 0 && (year % 100 != 0 || year % 400 == 0)
}

impl Month {
    /// The number of days of this month, in a leap year or a common one.
    pub open spec fn spec_days_in_month(self, leap_year: bool) -> int {
        match self {
            Month::February => if leap_year { 29 } else { 28 },
            Month::April | Month::June | Month::September | Month::November => 30,
            _ => 31,
        }
    }

    /// The number of days of this month, in a leap year or a common one.
    pub fn days_in_month(self, leap_year: bool) -> (n: i8)
        ensures
            n == self.spec_days_in_month(leap_year),
            28 <= n <= 31,
    {
        match self {
            Month::January => 31,
            Month::February => if leap_year { 29 } else { 28 },
            Month::March => 31,
            Month::April => 30,
            Month::May => 31,
            Month::June => 30,
            Month::July => 31,
            Month::August => 31,
            Month::September => 30,
            Month::October => 31,
            Month::November => 30,
            Month::December => 31,
        }
    }
}

/// One month of one year.
#[derive(Clone, Copy, Debug, PartialEq, Eq, Structural)]
pub struct YearMonth {
    pub year: i64,
    pub month: Month,
}

impl YearMonth {
    /// The number of days of this month.
    pub open spec fn spec_day_count(&self) -> int {
        self.month.spec_days_in_month(is_leap_year(self.year as int))
    }

    /// Whether the year of this month is a leap year.
    pub fn is_leap_year(&self) -> (leap: bool)
        ensures
            leap == is_leap_year(self.year as int),
    {
        let y: i64 = self.year;
        y % 4 == 0 && (y % 100 != 0 || y % 400 == 0)
    }

    /// The number of days of this month, from 28 to 31.
    pub fn day_count(&self) -> (n: i8)
        ensures
            n == self.spec_day_count(),
            28 <= n <= 31,
    {
        self.month.days_in_month(self.is_leap_year())
    }
}

} // verus!
