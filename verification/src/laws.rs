//! What holds of every run of steps on the days of a month.

use crate::calendar::YearMonth;
use crate::date::Ymd;
use crate::days::MonthDaysView;
use crate::span::DaySpan;
use vstd::prelude::*;

verus! {

/// The end of a run of days from which a step takes: `next` takes from the
/// front, `next_back` from the back.
pub enum End {
    Front,
    Back,
}

/// What one step from the given end leaves.
pub open spec fn step(v: MonthDaysView, end: End) -> MonthDaysView {
    match end {
        End::Front => v.pop_front(),
        End::Back => v.pop_back(),
    }
}

/// The day number that one step from the given end takes, if one is left.
pub open spec fn taken(v: MonthDaysView, end: End) -> Option<int> {
    if v.is_empty() {
        None
    } else {
        match end {
            End::Front => Some(v.start),
            End::Back => Some(v.end - 1),
        }
    }
}

/// What one step from the given end yields.
pub open spec fn yielded(v: MonthDaysView, end: End) -> Option<Ymd> {
    match end {
        End::Front => v.front(),
        End::Back => v.back(),
    }
}

/// What is left after one step from each of the given ends, in their order.
pub open spec fn after(v: MonthDaysView, ends: Seq<End>) -> MonthDaysView
    decreases ends.len(),
{
    if ends.len() == 0 {
        v
    } else {
        step(after(v, ends.drop_last()), ends.last())
    }
}

/// The day number that step `i` of the given steps takes, if one is left by
/// then.
pub open spec fn taken_at(v: MonthDaysView, ends: Seq<End>, i: int) -> Option<int> {
    taken(after(v, ends.take(i)), ends[i])
}

/// What step `i` of the given steps yields.
pub open spec fn yielded_at(v: MonthDaysView, ends: Seq<End>, i: int) -> Option<Ymd> {
    yielded(after(v, ends.take(i)), ends[i])
}

/// The dates that steps from the front yield one after another, up to the
/// first step that yields nothing.
pub open spec fn drain_front(v: MonthDaysView) -> Seq<Ymd>
    decreases v.len(),
{
    match v.front() {
        Some(date) => seq![date] + drain_front(v.pop_front()),
        None => Seq::empty(),
    }
}

/// The dates that steps from the back yield one after another, up to the
/// first step that yields nothing.
pub open spec fn drain_back(v: MonthDaysView) -> Seq<Ymd>
    decreases v.len(),
{
    match v.back() {
        Some(date) => seq![date] + drain_back(v.pop_back()),
        None => Seq::empty(),
    }
}

/// All the day numbers that are left are days of the month.
pub open spec fn within_month(v: MonthDaysView) -> bool {
    1 <= v.start <= v.end <= v.ym.spec_day_count() + 1
}

/// Stepping from the front until a step yields nothing gives the dates that
/// `forward` names, in that order.
pub proof fn lemma_drain_front_is_forward(v: MonthDaysView)
    ensures
        drain_front(v) == v.forward(),
    decreases v.len(),
{
    match v.front() {
        Some(date) => {
            lemma_drain_front_is_forward(v.pop_front());
            assert(v.forward() =~= seq![date] + v.pop_front().forward());
        },
        None => {
            assert(v.forward() =~= Seq::<Ymd>::empty());
        },
    }
}

/// Stepping from the back until a step yields nothing gives the dates that
/// `backward` names, in that order.
pub proof fn lemma_drain_back_is_backward(v: MonthDaysView)
    ensures
        drain_back(v) == v.backward(),
    decreases v.len(),
{
    match v.back() {
        Some(date) => {
            lemma_drain_back_is_backward(v.pop_back());
            assert(v.backward() =~= seq![date] + v.pop_back().backward());
        },
        None => {
            assert(v.backward() =~= Seq::<Ymd>::empty());
        },
    }
}

/// Where all the days that are left are days of the month, stepping from the
/// front yields every one of them, in ascending order, and each is a date
/// that exists.
pub proof fn lemma_forward_yields_every_day(v: MonthDaysView)
    requires
        within_month(v),
    ensures
        drain_front(v) == v.forward(),
        drain_front(v).len() == v.end - v.start,
        forall|i: int|
            0 <= i < v.end - v.start ==> {
                &&& (#[trigger] drain_front(v)[i]) == v.day(v.start + i)
                &&& drain_front(v)[i].is_valid()
            },
{
    lemma_drain_front_is_forward(v);
}

/// The whole-month span yields, from the front, one date for each day of
/// the month, from the first to the last.
pub proof fn lemma_full_span_yields_whole_month(ym: YearMonth)
    ensures
        within_month(MonthDaysView::of(ym, DaySpan::Full)),
        drain_front(MonthDaysView::of(ym, DaySpan::Full)).len() == ym.spec_day_count(),
        forall|i: int|
            0 <= i < ym.spec_day_count() ==> (#[trigger] drain_front(
                MonthDaysView::of(ym, DaySpan::Full),
            )[i]) == (Ymd { year: ym.year as int, month: ym.month, day: i + 1 }),
{
    lemma_forward_yields_every_day(MonthDaysView::of(ym, DaySpan::Full));
}

/// Where all the days that are left are days of the month, stepping from the
/// back yields every one of them, in descending order: the dates that come
/// from the front, reversed. The first date from the back is the last from
/// the front.
pub proof fn lemma_backward_reverses_forward(v: MonthDaysView)
    requires
        within_month(v),
    ensures
        drain_back(v) == v.backward(),
        drain_back(v) == drain_front(v).reverse(),
        drain_back(v).len() == v.end - v.start,
        v.start < v.end ==> drain_back(v).first() == drain_front(v).last(),
{
    lemma_drain_front_is_forward(v);
    lemma_drain_back_is_backward(v);
    assert(v.backward() =~= v.forward().reverse());
}

/// Steps only take away: after any steps the month is the same, the run of
/// days that is left lies within the run before them, and a run that was in
/// order (`start <= end`) is still in order.
pub proof fn lemma_steps_shrink(v: MonthDaysView, ends: Seq<End>)
    ensures
        after(v, ends).ym == v.ym,
        v.start <= after(v, ends).start,
        after(v, ends).end <= v.end,
        v.start <= v.end ==> after(v, ends).start <= after(v, ends).end,
        v.is_empty() ==> after(v, ends) == v,
    decreases ends.len(),
{
    if ends.len() > 0 {
        lemma_steps_shrink(v, ends.drop_last());
    }
}

/// Every step takes one day number as long as one is left: after the steps
/// as many fewer are left as steps were made, and none once there were as
/// many steps as day numbers. From then on a step from either end yields
/// nothing and changes nothing.
pub proof fn lemma_steps_exhaust(v: MonthDaysView, ends: Seq<End>)
    ensures
        after(v, ends).len() == if ends.len() <= v.len() {
            v.len() - ends.len()
        } else {
            0
        },
        ends.len() >= v.len() ==> {
            &&& after(v, ends).is_empty()
            &&& yielded(after(v, ends), End::Front) is None
            &&& yielded(after(v, ends), End::Back) is None
            &&& step(after(v, ends), End::Front) == after(v, ends)
            &&& step(after(v, ends), End::Back) == after(v, ends)
        },
    decreases ends.len(),
{
    if ends.len() > 0 {
        lemma_steps_exhaust(v, ends.drop_last());
    }
}

proof fn lemma_later_within_earlier(v: MonthDaysView, ends: Seq<End>, i: int, j: int)
    requires
        0 <= i <= j <= ends.len(),
    ensures
        after(v, ends.take(j)).ym == v.ym,
        after(v, ends.take(i)).start <= after(v, ends.take(j)).start,
        after(v, ends.take(j)).end <= after(v, ends.take(i)).end,
    decreases j - i,
{
    if i < j {
        lemma_later_within_earlier(v, ends, i, j - 1);
        assert(ends.take(j).drop_last() =~= ends.take(j - 1));
    } else {
        lemma_steps_shrink(v, ends.take(i));
    }
}

/// Every step takes its day number from the run of days that was there at
/// first, and what it yields, if anything, is the date of that day in the
/// month of the run: a date that exists.
pub proof fn lemma_steps_take_from_the_run(v: MonthDaysView, ends: Seq<End>, i: int)
    requires
        0 <= i < ends.len(),
    ensures
        taken_at(v, ends, i) matches Some(day) ==> v.start <= day < v.end,
        yielded_at(v, ends, i) matches Some(date) ==> {
            &&& taken_at(v, ends, i) == Some(date.day)
            &&& date == v.day(date.day)
            &&& date.is_valid()
        },
        taken_at(v, ends, i) is None ==> yielded_at(v, ends, i) is None,
{
    lemma_steps_shrink(v, ends.take(i));
}

/// In any run of steps, from the two ends in any order, no day number is
/// taken twice, and so no two steps yield the same date.
pub proof fn lemma_steps_never_repeat(v: MonthDaysView, ends: Seq<End>, i: int, j: int)
    requires
        0 <= i < j < ends.len(),
    ensures
        taken_at(v, ends, i) is Some ==> taken_at(v, ends, i) != taken_at(v, ends, j),
        yielded_at(v, ends, i) is Some ==> yielded_at(v, ends, i) != yielded_at(v, ends, j),
        yielded_at(v, ends, i) matches Some(a) ==> (yielded_at(v, ends, j) matches Some(b) ==> a.day
            != b.day),
{
    lemma_later_within_earlier(v, ends, i + 1, j);
    lemma_later_within_earlier(v, ends, 0, i);
    assert(ends.take(i + 1).drop_last() =~= ends.take(i));
}

} // verus!
