//! Loan records: the parameters of a loan together with the interest that
//! follows from them.

use crate::accrual::accrual_count;
use crate::accrual::accrual_days;
use crate::accrual::accrual_entry;
use crate::accrual::accrual_listing;
use crate::accrual::accrual_schedule;
use crate::accrual::build_schedule;
use crate::accrual::by_date;
use crate::accrual::day_count;
use crate::accrual::lemma_schedule_size;
use crate::accrual::DailyAccrual;
use crate::accrual::InterestFigures;
use crate::date::Date;
use std::collections::BTreeMap;
use vstd::prelude::*;

verus! {

/// What a caller states of a loan. Rates are annual fractions (0.05 for five
/// per cent); the currency is a label that nothing interprets.
///
/// The dates are not required to be in order: a loan whose end is not after
/// its start has no accrual days.
#[derive(Clone, Debug, PartialEq)]
pub struct LoanParams<A> {
    pub start_date: Date,
    pub end_date: Date,
    pub principal: A,
    pub currency: String,
    pub base_rate: A,
    pub margin: A,
}

impl<A> LoanParams<A> {
    /// The number of whole days from the start date to the end date,
    /// negative where the end date comes first.
    pub fn days(&self) -> (days: i64)
        ensures
            days == accrual_days(self.start_date, self.end_date),
    {
        day_count(self.start_date, self.end_date)
    }
}

/// A loan as contracts speak of it: what was stated of it, and the interest
/// figures that came with that. Everything else of a loan follows from these
/// two, so no loan can be out of step with its own parameters.
pub ghost struct LoanView<A> {
    pub params: LoanParams<A>,
    pub figures: InterestFigures<A>,
}

impl<A> LoanView<A> {
    /// The number of whole days from the start date to the end date,
    /// negative where the end date comes first.
    pub open spec fn days(self) -> int {
        accrual_days(self.params.start_date, self.params.end_date)
    }

    /// The interest of the whole term: the total that came with the
    /// parameters, and no sum over the days.
    pub open spec fn total_interest(self) -> A {
        self.figures.total
    }

    /// The interest of each accrual day, keyed by its date: one entry for
    /// each day after the start date up to and including the end date.
    pub open spec fn daily_accruals(self) -> Map<Date, DailyAccrual<A>> {
        accrual_schedule(self.params.start_date, self.params.end_date, self.figures)
    }

    /// The daily accruals in ascending order of date.
    pub open spec fn accrual_listing(self) -> Seq<(Date, DailyAccrual<A>)> {
        accrual_listing(self.params.start_date, self.params.end_date, self.figures)
    }
}

/// A loan record: the parameters of a loan and what is derived from them.
/// The derived fields always agree with the parameters: they are computed
/// from scratch and replaced as a whole, never changed piecewise.
#[derive(Debug)]
pub struct Loan<A> {
    params: LoanParams<A>,
    derived: Derived<A>,
}

/// What a loan record holds besides its parameters.
#[derive(Debug)]
struct Derived<A> {
    figures: InterestFigures<A>,
    /// The schedule, keyed by the day number of each accrual day.
    daily_accruals: BTreeMap<i32, DailyAccrual<A>>,
}

impl<A> View for Loan<A> {
    type V = LoanView<A>;

    closed spec fn view(&self) -> LoanView<A> {
        LoanView { params: self.params, figures: self.derived.figures }
    }
}

impl<A> Loan<A> {
    /// The stored table holds exactly the schedule of the view.
    #[verifier::type_invariant]
    spec fn table_is_schedule(&self) -> bool {
        &&& by_date(self.derived.daily_accruals@) == self@.daily_accruals()
        &&& self.derived.daily_accruals@.len() == accrual_count(
            self.params.start_date,
            self.params.end_date,
        )
    }
}

impl<A: Copy> Loan<A> {
    /// Builds the record of a loan: stores the parameters and computes the
    /// derived fields from scratch.
    pub fn new(params: LoanParams<A>, figures: InterestFigures<A>) -> (loan: Loan<A>)
        ensures
            loan@ == (LoanView { params, figures }),
    {
        let daily_accruals = build_schedule(params.start_date, params.end_date, figures);
        Loan { params, derived: Derived { figures, daily_accruals } }
    }

    /// Computes the derived fields anew, from the parameters of the loan and
    /// `figures`. Nothing of the earlier total or schedule remains.
    pub fn compute(&mut self, figures: InterestFigures<A>)
        ensures
            final(self)@ == (LoanView { params: old(self)@.params, figures }),
    {
        let daily_accruals = build_schedule(self.params.start_date, self.params.end_date, figures);
        self.derived = Derived { figures, daily_accruals };
    }

    /// The parameters of the loan.
    pub fn params(&self) -> (params: &LoanParams<A>)
        ensures
            *params == self@.params,
    {
        &self.params
    }

    /// The interest of the whole term.
    pub fn total_interest(&self) -> (total: A)
        ensures
            total == self@.total_interest(),
    {
        self.derived.figures.total
    }

    /// The number of accrual days, which is the number of entries of the
    /// schedule.
    pub fn accrual_count(&self) -> (count: usize)
        ensures
            count == self@.daily_accruals().len(),
            count == accrual_count(self@.params.start_date, self@.params.end_date),
    {
        proof {
            use_type_invariant(self);
            lemma_schedule_size(self.params.start_date, self.params.end_date, self.derived.figures);
        }
        self.derived.daily_accruals.len()
    }

    /// The accrual of the day `date`, or `None` where `date` is no accrual
    /// day of this loan.
    pub fn accrual_on(&self, date: Date) -> (accrual: Option<DailyAccrual<A>>)
        ensures
            accrual == if self@.daily_accruals().contains_key(date) {
                Some(self@.daily_accruals()[date])
            } else {
                None
            },
    {
        proof {
            use_type_invariant(self);
            assert(by_date(self.derived.daily_accruals@).contains_key(date)
                == self@.daily_accruals().contains_key(date));
        }
        match self.derived.daily_accruals.get(&date.days_from_ce) {
            Some(entry) => {
                assert(by_date(self.derived.daily_accruals@)[date] == *entry);
                Some(*entry)
            },
            None => None,
        }
    }

    /// The accrual days in ascending order of date, each with its entry.
    pub fn accruals(&self) -> (listing: Vec<(Date, DailyAccrual<A>)>)
        ensures
            listing@ == self@.accrual_listing(),
    {
        let start: Date = self.params.start_date;
        let days: i64 = self.params.days();
        let mut listing: Vec<(Date, DailyAccrual<A>)> = Vec::new();
        let mut day: i64 = 1;
        while day <= days
            invariant
                start == self.params.start_date,
                days == accrual_days(start, self.params.end_date),
                1 <= day,
                days >= 1 ==> day <= days + 1,
                days < 1 ==> day == 1,
                listing@.len() == day - 1,
                forall|i: int|
                    0 <= i < listing@.len() ==> #[trigger] listing@[i] == accrual_listing(
                        start,
                        self.params.end_date,
                        self.derived.figures,
                    )[i],
            decreases days + 1 - day,
        {
            let date: Date = start.checked_add_days(day).unwrap();
            let found: Option<DailyAccrual<A>> = self.accrual_on(date);
            assert(self@.daily_accruals().contains_key(date));
            assert(found == Some(accrual_entry(start, self.derived.figures, date)));
            listing.push((date, found.unwrap()));
            day = day + 1;
        }
        assert(listing@ =~= accrual_listing(start, self.params.end_date, self.derived.figures));
        listing
    }
}

/// A loan has one daily accrual for each whole day between its start date
/// and its end date, and none where the end date is not the later one.
pub proof fn lemma_one_accrual_per_day<A>(loan: LoanView<A>)
    ensures
        loan.daily_accruals().dom().finite(),
        loan.daily_accruals().len() == if loan.days() > 0 {
            loan.days()
        } else {
            0
        },
{
    lemma_schedule_size(loan.params.start_date, loan.params.end_date, loan.figures);
}

/// The accrual of the `k`-th day after the start date exists for every `k`
/// from 1 to the day count, is dated that day, and carries `k` as its
/// counter of elapsed days.
pub proof fn lemma_days_elapsed_counts_from_start<A>(loan: LoanView<A>, k: int)
    requires
        1 <= k <= loan.days(),
    ensures
        loan.daily_accruals().contains_key(loan.params.start_date.spec_add_days(k)),
        loan.daily_accruals()[loan.params.start_date.spec_add_days(k)].days_elapsed == k,
{
}

/// Every accrual of a loan lies after the start date and not after the end
/// date, counts the days from the start date to its own date, and carries
/// the daily figures of the loan.
pub proof fn lemma_accruals_lie_within_term<A>(loan: LoanView<A>, date: Date)
    requires
        loan.daily_accruals().contains_key(date),
    ensures
        loan.params.start_date.days_from_ce < date.days_from_ce <= loan.params.end_date.days_from_ce,
        loan.daily_accruals()[date].days_elapsed == date.spec_days_since(loan.params.start_date),
        1 <= loan.daily_accruals()[date].days_elapsed <= loan.days(),
        loan.daily_accruals()[date].interest_with_margin == loan.figures.daily_with_margin,
        loan.daily_accruals()[date].interest_without_margin == loan.figures.daily_without_margin,
{
}

/// A loan whose end date is not after its start date has no daily accruals;
/// so has, in particular, a loan that ends on the day on which it starts.
pub proof fn lemma_no_days_no_accruals<A>(loan: LoanView<A>)
    requires
        loan.days() <= 0,
    ensures
        loan.daily_accruals() == Map::<Date, DailyAccrual<A>>::empty(),
        loan.accrual_listing() == Seq::<(Date, DailyAccrual<A>)>::empty(),
{
    assert(loan.daily_accruals() =~= Map::<Date, DailyAccrual<A>>::empty());
    assert(loan.accrual_listing() =~= Seq::<(Date, DailyAccrual<A>)>::empty());
}

/// The listing of a loan walks its schedule in ascending order of date:
/// it has an entry for each accrual day and for nothing else, and the entry
/// at place `i` is that of the day `i + 1` days after the start date.
pub proof fn lemma_listing_walks_schedule<A>(loan: LoanView<A>)
    ensures
        loan.accrual_listing().len() == loan.daily_accruals().len(),
        forall|i: int|
            0 <= i < loan.accrual_listing().len() ==> {
                let (date, entry) = #[trigger] loan.accrual_listing()[i];
                &&& date == loan.params.start_date.spec_add_days(i + 1)
                &&& loan.daily_accruals().contains_key(date)
                &&& loan.daily_accruals()[date] == entry
                &&& entry.days_elapsed == i + 1
            },
        forall|date: Date| #[trigger]
            loan.daily_accruals().contains_key(date) ==> {
                let i = date.spec_days_since(loan.params.start_date) - 1;
                &&& 0 <= i < loan.accrual_listing().len()
                &&& loan.accrual_listing()[i].0 == date
            },
        forall|i: int, j: int|
            0 <= i < j < loan.accrual_listing().len() ==> (#[trigger] loan.accrual_listing()[i]).0.days_from_ce
                < (#[trigger] loan.accrual_listing()[j]).0.days_from_ce,
{
    lemma_schedule_size(loan.params.start_date, loan.params.end_date, loan.figures);
}

} // verus!
