//! Walking the dates of one calendar month, from either end.
//!
//! A [`DaySpan`] says which days of a month are meant, [`DaysIter::days`]
//! turns it into a [`MonthDays`] for a given [`YearMonth`], and each step of
//! that takes one day number from the front or from the back and yields its
//! [`Date`], if the month has such a day.

pub mod calendar;
pub mod date;
pub mod days;
pub mod laws;
pub mod span;

pub use calendar::{Month, YearMonth};
pub use date::{Date, DateError};
pub use days::{DaysIter, MonthDays};
pub use span::DaySpan;
