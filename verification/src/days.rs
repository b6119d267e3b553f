//! The dates of a month, taken one by one from either end of a run of days.

use crate::calendar::YearMonth;
use crate::date::{date_view, spec_ymd, Date, Ymd};
use crate::span::DaySpan;
use std::ops::Range;
use vstd::prelude::*;

verus! {

broadcast use vstd::std_specs::range::axiom_spec_range_next_i8;

/// What a `MonthDays` stands for: a month, and the day numbers from `start`
/// up to, and without, `end` that are still to come.
pub struct MonthDaysView {
    pub ym: YearMonth,
    pub start: int,
    pub end: int,
}

impl MonthDaysView {
    /// The days of the month `ym` that `span` describes, none taken yet.
    pub open spec fn of(ym: YearMonth, span: DaySpan) -> Self {
        MonthDaysView { ym, start: span.spec_start(), end: span.spec_end(ym.spec_day_count()) }
    }

    /// No day number is left.
    pub open spec fn is_empty(self) -> bool {
        self.start >= self.end
    }

    /// How many day numbers are left.
    pub open spec fn len(self) -> nat {
        if self.is_empty() {
            0
        } else {
            (self.end - self.start) as nat
        }
    }

    /// The date of the given day of the month, if the month has that day.
    pub open spec fn date_at(self, day: int) -> Option<Ymd> {
        spec_ymd(self.ym.year as int, self.ym.month, day)
    }

    /// What a step from the front yields: the date of the smallest day number
    /// that is left, if there is one and the month has that day.
    pub open spec fn front(self) -> Option<Ymd> {
        if self.is_empty() {
            None
        } else {
            self.date_at(self.start)
        }
    }

    /// What a step from the front leaves: all but the smallest day number.
    pub open spec fn pop_front(self) -> Self {
        if self.is_empty() {
            self
        } else {
            MonthDaysView { start: self.start + 1, ..self }
        }
    }

    /// What a step from the back yields: the date of the largest day number
    /// that is left, if there is one and the month has that day.
    pub open spec fn back(self) -> Option<Ymd> {
        if self.is_empty() {
            None
        } else {
            self.date_at(self.end - 1)
        }
    }

    /// What a step from the back leaves: all but the largest day number.
    pub open spec fn pop_back(self) -> Self {
        if self.is_empty() {
            self
        } else {
            MonthDaysView { end: self.end - 1, ..self }
        }
    }

    /// The day of the given number in this month, whether it exists or not.
    pub open spec fn day(self, day: int) -> Ymd {
        Ymd { year: self.ym.year as int, month: self.ym.month, day }
    }

    /// How many dates come from the front before a step yields nothing: the
    /// days from `start` on that are both left and in the month, and none
    /// where `start` itself is no day of the month.
    pub open spec fn forward_len(self) -> nat {
        let last = if self.end - 1 <= self.ym.spec_day_count() {
            self.end - 1
        } else {
            self.ym.spec_day_count()
        };
        if 1 <= self.start <= last {
            (last - self.start + 1) as nat
        } else {
            0
        }
    }

    /// The dates that come from the front before a step yields nothing, in
    /// the order in which they come: ascending from `start`.
    pub open spec fn forward(self) -> Seq<Ymd> {
        Seq::new(self.forward_len(), |i: int| self.day(self.start + i))
    }

    /// How many dates come from the back before a step yields nothing: the
    /// days below `end` that are both left and in the month, and none where
    /// the day before `end` is no day of the month.
    pub open spec fn backward_len(self) -> nat {
        let first = if self.start >= 1 {
            self.start
        } else {
            1
        };
        if first <= self.end - 1 <= self.ym.spec_day_count() {
            (self.end - first) as nat
        } else {
            0
        }
    }

    /// The dates that come from the back before a step yields nothing, in
    /// the order in which they come: descending from the day before `end`.
    pub open spec fn backward(self) -> Seq<Ymd> {
        Seq::new(self.backward_len(), |i: int| self.day(self.end - 1 - i))
    }
}

/// What each date of a sequence stands for.
pub open spec fn date_views(dates: Seq<Date>) -> Seq<Ymd> {
    dates.map_values(|d: Date| d@)
}

/// The dates of a run of days of one month, to be taken from either end.
#[derive(Debug, PartialEq)]
pub struct MonthDays {
    ym: YearMonth,
    range: Range<i8>,
}

impl View for MonthDays {
    type V = MonthDaysView;

    closed spec fn view(&self) -> MonthDaysView {
        MonthDaysView { ym: self.ym, start: self.range.start as int, end: self.range.end as int }
    }
}

impl MonthDays {
    /// Takes the smallest day number that is left and yields its date.
    /// Yields nothing when no day number is left, and also when the month has
    /// no day of the number taken: that number is then gone all the same.
    pub fn next(&mut self) -> (date: Option<Date>)
        ensures
            final(self)@ == old(self)@.pop_front(),
            date_view(date) == old(self)@.front(),
    {
        match self.range.next() {
            Some(day) => Date::ymd(self.ym.year, self.ym.month, day).ok(),
            None => None,
        }
    }

    /// Takes the largest day number that is left and yields its date.
    /// Yields nothing when no day number is left, and also when the month has
    /// no day of the number taken: that number is then gone all the same.
    pub fn next_back(&mut self) -> (date: Option<Date>)
        ensures
            final(self)@ == old(self)@.pop_back(),
            date_view(date) == old(self)@.back(),
    {
        // vstd gives `Range::next_back` no contract, so the step is written out.
        if self.range.start < self.range.end {
            self.range.end = self.range.end - 1;
            Date::ymd(self.ym.year, self.ym.month, self.range.end).ok()
        } else {
            None
        }
    }

    /// Steps from the front until a step yields nothing, and returns the
    /// dates in the order in which they came.
    pub fn into_vec(self) -> (dates: Vec<Date>)
        ensures
            dates@.len() == self@.forward_len(),
            forall|i: int|
                0 <= i < dates@.len() ==> (#[trigger] dates@[i])@ == self@.day(self@.start + i),
            date_views(dates@) == self@.forward(),
    {
        let ghost all = self@;
        let mut rest = self;
        let mut dates: Vec<Date> = Vec::new();
        loop
            invariant_except_break
                rest@.ym == all.ym,
                rest@.end == all.end,
                rest@.start == all.start + dates.len(),
            invariant
                dates.len() <= all.forward_len(),
                forall|i: int| 0 <= i < dates.len() ==> (#[trigger] dates@[i])@ == all.day(all.start + i),
            ensures
                dates.len() == all.forward_len(),
            decreases rest@.len(),
        {
            match rest.next() {
                Some(date) => {
                    dates.push(date);
                },
                None => {
                    break ;
                },
            }
        }
        assert(date_views(dates@) =~= all.forward());
        dates
    }

    /// Steps from the back until a step yields nothing, and returns the
    /// dates in the order in which they came.
    pub fn into_vec_rev(self) -> (dates: Vec<Date>)
        ensures
            dates@.len() == self@.backward_len(),
            forall|i: int|
                0 <= i < dates@.len() ==> (#[trigger] dates@[i])@ == self@.day(self@.end - 1 - i),
            date_views(dates@) == self@.backward(),
    {
        let ghost all = self@;
        let mut rest = self;
        let mut dates: Vec<Date> = Vec::new();
        loop
            invariant_except_break
                rest@.ym == all.ym,
                rest@.start == all.start,
                rest@.end == all.end - dates.len(),
            invariant
                dates.len() <= all.backward_len(),
                forall|i: int| 0 <= i < dates.len() ==> (#[trigger] dates@[i])@ == all.day(all.end - 1 - i),
            ensures
                dates.len() == all.backward_len(),
            decreases rest@.len(),
        {
            match rest.next_back() {
                Some(date) => {
                    dates.push(date);
                },
                None => {
                    break ;
                },
            }
        }
        assert(date_views(dates@) =~= all.backward());
        dates
    }
}

/// What holds the days of a month and can hand out a run of them.
pub trait DaysIter {
    /// The month whose days are handed out.
    spec fn year_month(&self) -> YearMonth;

    /// The dates of the days of this month that `span` describes, not yet
    /// taken.
    fn days(&self, span: DaySpan) -> (days: MonthDays)
        ensures
            days@ == MonthDaysView::of(self.year_month(), span),
    ;
}

impl DaysIter for YearMonth {
    open spec fn year_month(&self) -> YearMonth {
        *self
    }

    fn days(&self, span: DaySpan) -> (days: MonthDays) {
        MonthDays { ym: *self, range: span.get_range(self) }
    }
}

} // verus!
