//! The accrual engine: one entry of interest for each elapsed day of a loan.
//!
//! The engine places figures on the calendar. The figures themselves (the
//! interest of one day with and without the margin) are computed by the
//! caller, in whatever number type it keeps its amounts in.

use crate::date::Date;
use std::collections::BTreeMap;
use vstd::prelude::*;

verus! {

/// The interest that accrues on one day of a loan.
#[derive(Clone, Copy, Debug, PartialEq)]
pub struct DailyAccrual<A> {
    /// The day's interest at the base rate plus the margin.
    pub interest_with_margin: A,
    /// The day's interest at the base rate alone.
    pub interest_without_margin: A,
    /// How many days after the loan's start this day lies; the first
    /// accrual day counts as 1.
    pub days_elapsed: i64,
}

/// The interest figures of a loan, as its owner computed them from the
/// principal and the rates: the interest of a single day, which is the same
/// for every day of a simple-interest loan, and the total over the whole
/// term.
///
/// The library places these figures on the calendar; it does not compute or
/// check them.
#[derive(Clone, Copy, Debug, PartialEq)]
pub struct InterestFigures<A> {
    /// One day's interest at the base rate plus the margin.
    pub daily_with_margin: A,
    /// One day's interest at the base rate alone.
    pub daily_without_margin: A,
    /// The interest of the whole term at the base rate plus the margin.
    pub total: A,
}

/// The number of whole days from `start` to `end`. It is negative where
/// `end` comes before `start`; no accrual day exists then.
pub open spec fn accrual_days(start: Date, end: Date) -> int {
    end.spec_days_since(start)
}

/// The number of accrual days between `start` and `end`: the day count,
/// or zero where that is negative.
pub open spec fn accrual_count(start: Date, end: Date) -> nat {
    if accrual_days(start, end) > 0 {
        accrual_days(start, end) as nat
    } else {
        0
    }
}

/// Whether interest accrues on `date`: on every day after `start` up to and
/// including `end`, and on no other.
pub open spec fn is_accrual_day(start: Date, end: Date, date: Date) -> bool {
    start.days_from_ce < date.days_from_ce <= end.days_from_ce
}

/// The entry for the accrual day `date` of a loan that starts on `start`.
pub open spec fn accrual_entry<A>(start: Date, figures: InterestFigures<A>, date: Date)
    -> DailyAccrual<A> {
    DailyAccrual {
        interest_with_margin: figures.daily_with_margin,
        interest_without_margin: figures.daily_without_margin,
        days_elapsed: date.spec_days_since(start) as i64,
    }
}

/// The accrual schedule of a loan: an entry for each accrual day, keyed by
/// its date.
pub open spec fn accrual_schedule<A>(start: Date, end: Date, figures: InterestFigures<A>) -> Map<
    Date,
    DailyAccrual<A>,
> {
    Map::new(
        |date: Date| is_accrual_day(start, end, date),
        |date: Date| accrual_entry(start, figures, date),
    )
}

/// A table keyed by day numbers, read as a map keyed by dates.
pub open spec fn by_date<V>(table: Map<i32, V>) -> Map<Date, V> {
    Map::new(
        |date: Date| table.contains_key(date.days_from_ce),
        |date: Date| table[date.days_from_ce],
    )
}

/// The number of whole days from `start` to `end`, negative where `end`
/// comes first.
pub fn day_count(start: Date, end: Date) -> (days: i64)
    ensures
        days == accrual_days(start, end),
{
    end.days_since(start)
}

/// Builds the accrual schedule of a loan from `start` to `end` as a table
/// keyed by day number, in ascending order of date.
///
/// Where `end` is not after `start` the table is empty.
pub fn build_schedule<A: Copy>(start: Date, end: Date, figures: InterestFigures<A>) -> (table:
    BTreeMap<i32, DailyAccrual<A>>)
    ensures
        by_date(table@) == accrual_schedule(start, end, figures),
        table@.len() == accrual_count(start, end),
{
    let days: i64 = day_count(start, end);
    let mut table: BTreeMap<i32, DailyAccrual<A>> = BTreeMap::new();
    let mut day: i64 = 1;
    while day <= days
        invariant
            days == accrual_days(start, end),
            1 <= day,
            days >= 1 ==> day <= days + 1,
            days < 1 ==> day == 1,
            table@.dom().finite(),
            table@.len() == day - 1,
            forall|n: i32|
                table@.contains_key(n) <==> start.days_from_ce < n < start.days_from_ce + day,
            forall|n: i32| #[trigger]
                table@.contains_key(n) ==> table@[n] == accrual_entry(
                    start,
                    figures,
                    Date { days_from_ce: n },
                ),
        decreases days + 1 - day,
    {
        let current: Date = start.checked_add_days(day).unwrap();
        let entry: DailyAccrual<A> = DailyAccrual {
            interest_with_margin: figures.daily_with_margin,
            interest_without_margin: figures.daily_without_margin,
            days_elapsed: day,
        };
        assert(!table@.contains_key(current.days_from_ce));
        table.insert(current.days_from_ce, entry);
        day = day + 1;
    }
    assert(by_date(table@) =~= accrual_schedule(start, end, figures));
    table
}

/// The accrual days of a loan in ascending order of date, each with its
/// entry: the first lies one day after `start`, the last on `end`.
pub open spec fn accrual_listing<A>(start: Date, end: Date, figures: InterestFigures<A>) -> Seq<
    (Date, DailyAccrual<A>),
> {
    Seq::new(
        accrual_count(start, end),
        |i: int|
            {
                let date = start.spec_add_days(i + 1);
                (date, accrual_entry(start, figures, date))
            },
    )
}

/// A schedule has as many entries as there are accrual days, and so
/// finitely many.
pub proof fn lemma_schedule_size<A>(start: Date, end: Date, figures: InterestFigures<A>)
    ensures
        accrual_schedule(start, end, figures).dom().finite(),
        accrual_schedule(start, end, figures).len() == accrual_count(start, end),
    decreases accrual_count(start, end),
{
    let days = accrual_schedule(start, end, figures).dom();
    if end.days_from_ce <= start.days_from_ce {
        assert(days =~= Set::empty());
    } else {
        let before = Date { days_from_ce: (end.days_from_ce - 1) as i32 };
        lemma_schedule_size(start, before, figures);
        assert(days =~= accrual_schedule(start, before, figures).dom().insert(end));
    }
}

} // verus!
