use month_days::{Date, DaySpan, DaysIter, Month, MonthDays, YearMonth};

fn september() -> YearMonth {
    YearMonth { year: 1999, month: Month::September }
}

fn day_numbers(dates: &[Date]) -> Vec<i8> {
    dates.iter().map(|d| d.day()).collect()
}

fn forward_by_steps(mut days: MonthDays) -> Vec<Date> {
    let mut out = Vec::new();
    while let Some(date) = days.next() {
        out.push(date);
    }
    out
}

fn backward_by_steps(mut days: MonthDays) -> Vec<Date> {
    let mut out = Vec::new();
    while let Some(date) = days.next_back() {
        out.push(date);
    }
    out
}

#[test]
fn full_span_yields_every_day_of_a_thirty_day_month() {
    let dates = forward_by_steps(september().days(DaySpan::Full));
    assert_eq!(dates.len(), 30);
    assert_eq!(day_numbers(&dates), (1..=30).collect::<Vec<i8>>());
    for date in &dates {
        assert_eq!(date.year(), 1999);
        assert_eq!(date.month(), Month::September);
    }
}

#[test]
fn from_span_yields_the_rest_of_the_month() {
    let dates = forward_by_steps(september().days(DaySpan::From(10)));
    assert_eq!(dates.len(), 21);
    assert_eq!(day_numbers(&dates), (10..=30).collect::<Vec<i8>>());
}

#[test]
fn explicit_span_leaves_out_its_end() {
    let dates = forward_by_steps(september().days(DaySpan::Explicit(10, 20)));
    assert_eq!(dates.len(), 10);
    assert_eq!(day_numbers(&dates), (10..=19).collect::<Vec<i8>>());
}

#[test]
fn to_span_starts_at_the_first_day() {
    let dates = forward_by_steps(september().days(DaySpan::To(20)));
    assert_eq!(dates.len(), 19);
    assert_eq!(day_numbers(&dates), (1..=19).collect::<Vec<i8>>());
}

#[test]
fn backward_steps_yield_the_same_dates_in_descending_order() {
    let forward = forward_by_steps(september().days(DaySpan::Full));
    let backward = backward_by_steps(september().days(DaySpan::Full));
    assert_eq!(backward.len(), 30);
    assert_eq!(day_numbers(&backward), (1..=30).rev().collect::<Vec<i8>>());
    let mut reversed = forward.clone();
    reversed.reverse();
    assert_eq!(backward, reversed);
    assert_eq!(backward.first(), forward.last());
    assert_eq!(backward[0], Date::ymd(1999, Month::September, 30).unwrap());
}

#[test]
fn steps_from_both_ends_never_repeat_a_day() {
    let mut days = september().days(DaySpan::Full);
    let mut seen: Vec<i8> = Vec::new();
    let mut turn = 0;
    loop {
        let step = if turn % 3 == 0 { days.next_back() } else { days.next() };
        turn += 1;
        match step {
            Some(date) => {
                assert!(!seen.contains(&date.day()));
                seen.push(date.day());
            }
            None => break,
        }
    }
    assert_eq!(seen.len(), 30);
    seen.sort();
    assert_eq!(seen, (1..=30).collect::<Vec<i8>>());
    assert_eq!(days.next(), None);
    assert_eq!(days.next_back(), None);
    assert_eq!(days.next(), None);
}

#[test]
fn steps_from_both_ends_meet_in_the_middle() {
    let mut days = september().days(DaySpan::Explicit(10, 14));
    assert_eq!(days.next().map(|d| d.day()), Some(10));
    assert_eq!(days.next_back().map(|d| d.day()), Some(13));
    assert_eq!(days.next_back().map(|d| d.day()), Some(12));
    assert_eq!(days.next().map(|d| d.day()), Some(11));
    assert_eq!(days.next(), None);
    assert_eq!(days.next_back(), None);
}

#[test]
fn span_beyond_the_month_yields_nothing() {
    let mut days = september().days(DaySpan::Explicit(35, 40));
    assert_eq!(days.next(), None);
    assert_eq!(forward_by_steps(september().days(DaySpan::Explicit(35, 40))).len(), 0);
    assert_eq!(backward_by_steps(september().days(DaySpan::Explicit(35, 40))).len(), 0);
    assert_eq!(september().days(DaySpan::Explicit(35, 40)).into_vec().len(), 0);
}

#[test]
fn every_interval_within_the_month_yields_all_its_days() {
    let months = [
        YearMonth { year: 1999, month: Month::September },
        YearMonth { year: 1999, month: Month::February },
        YearMonth { year: 2000, month: Month::February },
        YearMonth { year: 1999, month: Month::December },
    ];
    for ym in months {
        let count = ym.day_count();
        for start in 1..=count + 1 {
            for end in start..=count + 1 {
                let dates = forward_by_steps(ym.days(DaySpan::Explicit(start, end)));
                assert_eq!(dates.len(), (end - start) as usize);
                assert_eq!(day_numbers(&dates), (start..end).collect::<Vec<i8>>());
                assert_eq!(ym.days(DaySpan::Explicit(start, end)).into_vec(), dates);
                let mut back = ym.days(DaySpan::Explicit(start, end)).into_vec_rev();
                back.reverse();
                assert_eq!(back, dates);
            }
        }
    }
}

#[test]
fn a_failed_step_takes_its_day_number_and_ends_the_run() {
    let mut days = september().days(DaySpan::Explicit(29, 33));
    assert_eq!(days.next().map(|d| d.day()), Some(29));
    assert_eq!(days.next().map(|d| d.day()), Some(30));
    assert_eq!(days.next(), None);
    assert_eq!(days.next(), None);
    assert_eq!(days.next(), None);
    assert_eq!(days.next_back(), None);
}

#[test]
fn a_failed_step_does_not_skip_to_the_next_day() {
    let mut days = september().days(DaySpan::Explicit(-1, 3));
    assert_eq!(days.next(), None);
    assert_eq!(days.next(), None);
    assert_eq!(days.next().map(|d| d.day()), Some(1));
    assert_eq!(days.next().map(|d| d.day()), Some(2));
    assert_eq!(days.next(), None);
}

#[test]
fn backward_steps_fail_on_days_past_the_month() {
    let mut days = september().days(DaySpan::Explicit(28, 33));
    assert_eq!(days.next_back(), None);
    assert_eq!(days.next_back(), None);
    assert_eq!(days.next_back().map(|d| d.day()), Some(30));
    assert_eq!(days.next_back().map(|d| d.day()), Some(29));
    assert_eq!(days.next_back().map(|d| d.day()), Some(28));
    assert_eq!(days.next_back(), None);
    assert_eq!(days.next(), None);
}

#[test]
fn into_vec_stops_at_the_first_step_that_yields_nothing() {
    let ym = september();
    assert_eq!(day_numbers(&ym.days(DaySpan::Explicit(25, 40)).into_vec()), vec![25, 26, 27, 28, 29, 30]);
    assert_eq!(ym.days(DaySpan::Explicit(25, 40)).into_vec_rev(), Vec::<Date>::new());
    assert_eq!(ym.days(DaySpan::Explicit(-3, 5)).into_vec(), Vec::<Date>::new());
    assert_eq!(day_numbers(&ym.days(DaySpan::Explicit(-3, 5)).into_vec_rev()), vec![4, 3, 2, 1]);
    assert_eq!(ym.days(DaySpan::From(0)).into_vec(), Vec::<Date>::new());
    assert_eq!(ym.days(DaySpan::From(0)).into_vec_rev().len(), 30);
    assert_eq!(ym.days(DaySpan::To(40)).into_vec().len(), 30);
    assert_eq!(ym.days(DaySpan::To(40)).into_vec_rev().len(), 0);
}

#[test]
fn into_vec_agrees_with_single_steps() {
    let ym = YearMonth { year: 2024, month: Month::February };
    for span in [
        DaySpan::Full,
        DaySpan::From(10),
        DaySpan::To(20),
        DaySpan::Explicit(10, 20),
        DaySpan::Explicit(20, 10),
        DaySpan::Explicit(28, 35),
        DaySpan::Explicit(-5, 5),
        DaySpan::From(30),
        DaySpan::To(1),
    ] {
        assert_eq!(ym.days(span).into_vec(), forward_by_steps(ym.days(span)));
        assert_eq!(ym.days(span).into_vec_rev(), backward_by_steps(ym.days(span)));
    }
}

#[test]
fn empty_and_inverted_spans_yield_nothing() {
    let ym = september();
    for span in [
        DaySpan::Explicit(10, 10),
        DaySpan::Explicit(20, 10),
        DaySpan::From(31),
        DaySpan::From(100),
        DaySpan::To(1),
        DaySpan::To(0),
        DaySpan::To(-20),
    ] {
        let mut days = ym.days(span);
        assert_eq!(days.next(), None);
        assert_eq!(days.next_back(), None);
        assert_eq!(days, ym.days(span));
        assert_eq!(ym.days(span).into_vec().len(), 0);
        assert_eq!(ym.days(span).into_vec_rev().len(), 0);
    }
}

#[test]
fn full_span_follows_the_length_of_february() {
    let common = YearMonth { year: 1900, month: Month::February };
    let leap = YearMonth { year: 2000, month: Month::February };
    assert_eq!(common.days(DaySpan::Full).into_vec().len(), 28);
    assert_eq!(leap.days(DaySpan::Full).into_vec().len(), 29);
    assert_eq!(leap.days(DaySpan::From(28)).into_vec_rev().first().map(|d| d.day()), Some(29));
    assert_eq!(common.days(DaySpan::From(28)).into_vec_rev().first().map(|d| d.day()), Some(28));
}

#[test]
fn spans_at_the_ends_of_the_day_number_range() {
    let ym = YearMonth { year: 1999, month: Month::December };
    let mut days = ym.days(DaySpan::Explicit(i8::MIN, i8::MAX));
    assert_eq!(days.next(), None);
    assert_eq!(days.next_back(), None);
    let mut steps = 2;
    while days.next().is_none() && steps < 300 {
        steps += 1;
    }
    assert_eq!(steps, 130);
    assert_eq!(days.next().map(|d| d.day()), Some(2));
    assert_eq!(ym.days(DaySpan::To(i8::MAX)).into_vec().len(), 31);
    assert_eq!(ym.days(DaySpan::From(i8::MAX)).into_vec().len(), 0);
    assert_eq!(ym.days(DaySpan::From(i8::MIN)).into_vec_rev().len(), 31);
}

#[test]
fn equal_runs_compare_equal() {
    let ym = september();
    assert_eq!(ym.days(DaySpan::Full), ym.days(DaySpan::Explicit(1, 31)));
    assert_eq!(ym.days(DaySpan::From(10)), ym.days(DaySpan::Explicit(10, 31)));
    assert_eq!(ym.days(DaySpan::To(20)), ym.days(DaySpan::Explicit(1, 20)));
    assert_ne!(ym.days(DaySpan::Full), ym.days(DaySpan::From(2)));
    let mut stepped = ym.days(DaySpan::Full);
    stepped.next();
    assert_eq!(stepped, ym.days(DaySpan::From(2)));
    stepped.next_back();
    assert_eq!(stepped, ym.days(DaySpan::Explicit(2, 30)));
    let other = YearMonth { year: 1999, month: Month::November };
    assert_ne!(ym.days(DaySpan::Explicit(1, 31)), other.days(DaySpan::Explicit(1, 31)));
}
