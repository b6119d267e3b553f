//! Which days of a month to walk, and the interval of day numbers that a
//! description stands for.

use crate::calendar::YearMonth;
use std::ops::Range;
use vstd::prelude::*;

verus! {

/// A run of days of a month, by its bounds. Day numbers start at 1, and an
/// upper bound is the first day that is left out.
#[derive(Clone, Copy, Debug, PartialEq, Eq, Structural)]
pub enum DaySpan {
    /// The whole month.
    Full,
    /// From the given day to the end of the month.
    From(i8),
    /// From the first day up to, and without, the given day.
    To(i8),
    /// From the first given day up to, and without, the second.
    Explicit(i8, i8),
}

impl DaySpan {
    /// The first day number of the span.
    pub open spec fn spec_start(self) -> int {
        match self {
            DaySpan::Full | DaySpan::To(_) => 1,
            DaySpan::From(start) | DaySpan::Explicit(start, _) => start as int,
        }
    }

    /// The day number at which the span stops, in a month of `day_count`
    /// days.
    pub open spec fn spec_end(self, day_count: int) -> int {
        match self {
            DaySpan::Full | DaySpan::From(_) => day_count + 1,
            DaySpan::To(end) | DaySpan::Explicit(_, end) => end as int,
        }
    }

    /// The half-open interval of day numbers that this span stands for in
    /// the given month. The bounds that the span gives are taken as they
    /// are: they are held neither to the month's length nor to each other.
    pub fn get_range(&self, ym: &YearMonth) -> (range: Range<i8>)
        ensures
            range.start == self.spec_start(),
            range.end == self.spec_end(ym.spec_day_count()),
    {
        match *self {
            DaySpan::Full => 1..ym.day_count() + 1,
            DaySpan::From(start) => start..ym.day_count() + 1,
            DaySpan::To(end) => 1..end,
            DaySpan::Explicit(start, end) => start..end,
        }
    }
}

} // verus!
