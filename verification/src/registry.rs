//! The loan registry: owns the loan records and hands out their identifiers.

use crate::accrual::InterestFigures;
use crate::loan::Loan;
use crate::loan::LoanParams;
use crate::loan::LoanView;
use std::collections::BTreeMap;
use vstd::prelude::*;

verus! {

/// The identifier of a loan in a registry.
pub type LoanId = u32;

/// The error of an operation that names a loan which the registry does not
/// hold.
#[derive(Clone, Copy, Debug, PartialEq, Eq, Structural)]
pub struct NotFound {
    /// The identifier that was asked for.
    pub id: LoanId,
}

/// The loans of one process, each under its identifier.
///
/// Identifiers are handed out in ascending order from 1 and no loan is ever
/// removed, so the registry holds a loan under every identifier below the
/// next one to be handed out.
#[derive(Debug)]
pub struct LoanRegistry<A> {
    loans: BTreeMap<LoanId, Loan<A>>,
    next_id: LoanId,
}

impl<A> View for LoanRegistry<A> {
    type V = Map<LoanId, Loan<A>>;

    closed spec fn view(&self) -> Map<LoanId, Loan<A>> {
        self.loans@
    }
}

impl<A> LoanRegistry<A> {
    /// The identifier that the next created loan will get.
    pub closed spec fn spec_next_id(&self) -> LoanId {
        self.next_id
    }

    /// The registry holds a loan under each identifier from 1 up to, and not
    /// including, the next identifier, and under no other.
    #[verifier::type_invariant]
    pub open spec fn wf(&self) -> bool {
        &&& self.spec_next_id() >= 1
        &&& forall|id: LoanId| self@.contains_key(id) <==> 1 <= id < self.spec_next_id()
    }

    /// The loans in ascending order of identifier, each with its identifier.
    pub open spec fn listing(&self) -> Seq<(LoanId, Loan<A>)> {
        Seq::new(
            (self.spec_next_id() - 1) as nat,
            |i: int| ((i + 1) as LoanId, self@[(i + 1) as LoanId]),
        )
    }

    /// `after` is this registry with one more loan, built from `params` and
    /// `figures` and stored under the fresh identifier `id`.
    pub open spec fn creates(
        &self,
        after: &Self,
        id: LoanId,
        params: LoanParams<A>,
        figures: InterestFigures<A>,
    ) -> bool {
        &&& id == self.spec_next_id()
        &&& after.spec_next_id() == id + 1
        &&& !self@.contains_key(id)
        &&& after@.contains_key(id)
        &&& after@[id]@ == (LoanView { params, figures })
        &&& after@.remove(id) == self@
    }

    /// `after` is this registry with the loan under `id` replaced by the one
    /// built from `params` and `figures`; every other loan and the next
    /// identifier are as before.
    pub open spec fn replaces(
        &self,
        after: &Self,
        id: LoanId,
        params: LoanParams<A>,
        figures: InterestFigures<A>,
    ) -> bool {
        &&& self@.contains_key(id)
        &&& after.spec_next_id() == self.spec_next_id()
        &&& after@.contains_key(id)
        &&& after@[id]@ == (LoanView { params, figures })
        &&& after@.remove(id) == self@.remove(id)
    }
}

impl<A: Copy> LoanRegistry<A> {
    /// An empty registry, whose first loan will get the identifier 1.
    pub fn new() -> (registry: Self)
        ensures
            registry.wf(),
            registry@ == Map::<LoanId, Loan<A>>::empty(),
            registry.spec_next_id() == 1,
    {
        LoanRegistry { loans: BTreeMap::new(), next_id: 1 }
    }

    /// The identifier that the next created loan will get.
    pub fn next_id(&self) -> (id: LoanId)
        ensures
            id == self.spec_next_id(),
    {
        self.next_id
    }

    /// Stores a new loan, built from `params` and `figures`, and returns its
    /// identifier: the next one, which no loan has had before.
    ///
    /// The identifiers of a registry run out after `u32::MAX - 1` loans.
    pub fn create(&mut self, params: LoanParams<A>, figures: InterestFigures<A>) -> (id: LoanId)
        requires
            old(self).spec_next_id() < u32::MAX,
        ensures
            final(self).wf(),
            old(self).creates(final(self), id, params, figures),
    {
        proof {
            use_type_invariant(&*self);
        }
        let loan: Loan<A> = Loan::new(params, figures);
        // The table and the counter change together: the registry is taken
        // apart and put together again, and is in order at every step.
        let mut taken: LoanRegistry<A> = LoanRegistry::new();
        std::mem::swap(self, &mut taken);
        let LoanRegistry { mut loans, next_id } = taken;
        assert(loans@ == old(self)@ && next_id == old(self).spec_next_id());
        loans.insert(next_id, loan);
        *self = LoanRegistry { loans, next_id: next_id + 1 };
        assert(self@.remove(next_id) =~= old(self)@);
        next_id
    }

    /// Replaces the loan under `id` by the one built from `params` and
    /// `figures`. Where the registry holds no loan under `id` it fails with
    /// `NotFound` and changes nothing.
    pub fn update(
        &mut self,
        id: LoanId,
        params: LoanParams<A>,
        figures: InterestFigures<A>,
    ) -> (result: Result<(), NotFound>)
        ensures
            final(self).wf(),
            result is Ok <==> old(self)@.contains_key(id),
            result is Ok ==> old(self).replaces(final(self), id, params, figures),
            result is Err ==> {
                &&& result == Err::<(), NotFound>(NotFound { id })
                &&& final(self)@ == old(self)@
                &&& final(self).spec_next_id() == old(self).spec_next_id()
                &&& final(self).listing() == old(self).listing()
            },
    {
        proof {
            use_type_invariant(&*self);
        }
        if self.loans.contains_key(&id) {
            let loan: Loan<A> = Loan::new(params, figures);
            let mut taken: LoanRegistry<A> = LoanRegistry::new();
            std::mem::swap(self, &mut taken);
            let LoanRegistry { mut loans, next_id } = taken;
            assert(loans@ == old(self)@ && next_id == old(self).spec_next_id());
            loans.insert(id, loan);
            *self = LoanRegistry { loans, next_id };
            assert(self@.remove(id) =~= old(self)@.remove(id));
            Ok(())
        } else {
            Err(NotFound { id })
        }
    }

    /// The loan under `id`, or `None` where the registry holds none.
    pub fn get(&self, id: LoanId) -> (found: Option<&Loan<A>>)
        ensures
            match found {
                Some(loan) => self@.contains_key(id) && *loan == self@[id],
                None => !self@.contains_key(id),
            },
    {
        self.loans.get(&id)
    }

    /// All loans with their identifiers, in ascending order of identifier.
    pub fn list(&self) -> (entries: Vec<(LoanId, &Loan<A>)>)
        ensures
            self.wf(),
            entries@.len() == self.listing().len(),
            forall|i: int|
                0 <= i < entries@.len() ==> {
                    &&& (#[trigger] entries@[i]).0 == self.listing()[i].0
                    &&& *entries@[i].1 == self.listing()[i].1
                },
    {
        proof {
            use_type_invariant(self);
        }
        let mut entries: Vec<(LoanId, &Loan<A>)> = Vec::new();
        let mut id: LoanId = 1;
        while id < self.next_id
            invariant
                self.wf(),
                1 <= id <= self.next_id,
                entries@.len() == id - 1,
                forall|i: int|
                    0 <= i < entries@.len() ==> {
                        &&& (#[trigger] entries@[i]).0 == self.listing()[i].0
                        &&& *entries@[i].1 == self.listing()[i].1
                    },
            decreases self.next_id - id,
        {
            assert(self@.contains_key(id));
            let loan: &Loan<A> = self.loans.get(&id).unwrap();
            entries.push((id, loan));
            id = id + 1;
        }
        entries
    }
}

/// The identifiers at or above 1 and below `next`.
pub open spec fn ids_below(next: LoanId) -> Set<LoanId> {
    Set::new(|id: LoanId| 1 <= id < next)
}

/// There are `next - 1` identifiers below `next`.
pub proof fn lemma_ids_below_count(next: LoanId)
    requires
        next >= 1,
    ensures
        ids_below(next).finite(),
        ids_below(next).len() == next - 1,
    decreases next,
{
    if next == 1 {
        assert(ids_below(next) =~= Set::empty());
    } else {
        let last: LoanId = (next - 1) as LoanId;
        lemma_ids_below_count(last);
        assert(ids_below(next) =~= ids_below(last).insert(last));
    }
}

/// The listing of a registry names every loan once, in ascending order of
/// identifier, and nothing else.
pub proof fn lemma_listing_is_ordered_and_complete<A>(registry: LoanRegistry<A>)
    requires
        registry.wf(),
    ensures
        registry@.dom().finite(),
        registry.listing().len() == registry@.len(),
        forall|i: int|
            0 <= i < registry.listing().len() ==> {
                let (id, loan) = #[trigger] registry.listing()[i];
                &&& registry@.contains_key(id)
                &&& registry@[id] == loan
            },
        forall|id: LoanId| #[trigger]
            registry@.contains_key(id) ==> registry.listing()[id - 1] == (id, registry@[id]),
        forall|i: int, j: int|
            0 <= i < j < registry.listing().len() ==> (#[trigger] registry.listing()[i]).0 < (
            #[trigger] registry.listing()[j]).0,
{
    lemma_ids_below_count(registry.spec_next_id());
    assert(registry@.dom() =~= ids_below(registry.spec_next_id()));
}

/// A created loan gets an identifier that is greater than that of every loan
/// which the registry held, and the registry is in order afterwards.
pub proof fn lemma_created_id_is_fresh<A>(
    before: LoanRegistry<A>,
    after: LoanRegistry<A>,
    id: LoanId,
    params: LoanParams<A>,
    figures: InterestFigures<A>,
)
    requires
        before.wf(),
        before.creates(&after, id, params, figures),
    ensures
        !before@.contains_key(id),
        forall|other: LoanId| #[trigger] before@.contains_key(other) ==> other < id,
        after@ == before@.insert(id, after@[id]),
        after.wf(),
{
    assert(after@ =~= after@.remove(id).insert(id, after@[id]));
    assert forall|other: LoanId| after@.contains_key(other) <==> 1 <= other
        < after.spec_next_id() by {
        if other != id {
            assert(after@.remove(id).contains_key(other) == after@.contains_key(other));
        }
    }
}

/// Identifiers only go up: of two created loans the later one gets the
/// greater identifier, whatever happened to the registry in between, so long
/// as its next identifier was not set back. No operation sets it back: a
/// creation raises it by one and an update leaves it alone.
pub proof fn lemma_later_id_is_greater<A>(
    first_before: LoanRegistry<A>,
    first_after: LoanRegistry<A>,
    first_id: LoanId,
    first_params: LoanParams<A>,
    first_figures: InterestFigures<A>,
    second_before: LoanRegistry<A>,
    second_after: LoanRegistry<A>,
    second_id: LoanId,
    second_params: LoanParams<A>,
    second_figures: InterestFigures<A>,
)
    requires
        first_before.creates(&first_after, first_id, first_params, first_figures),
        first_after.spec_next_id() <= second_before.spec_next_id(),
        second_before.creates(&second_after, second_id, second_params, second_figures),
    ensures
        first_id < second_id,
        first_after.spec_next_id() <= second_after.spec_next_id(),
{
}

/// An update leaves the next identifier alone, keeps the registry in order,
/// and changes no loan but the one it names.
pub proof fn lemma_update_keeps_the_rest<A>(
    before: LoanRegistry<A>,
    after: LoanRegistry<A>,
    id: LoanId,
    params: LoanParams<A>,
    figures: InterestFigures<A>,
)
    requires
        before.wf(),
        before.replaces(&after, id, params, figures),
    ensures
        after.wf(),
        after.spec_next_id() == before.spec_next_id(),
        after@.dom() == before@.dom(),
        forall|other: LoanId|
            other != id && #[trigger] before@.contains_key(other) ==> after@[other]
                == before@[other],
{
    assert forall|other: LoanId| after@.contains_key(other) == before@.contains_key(other) by {
        if other != id {
            assert(after@.remove(id).contains_key(other) == after@.contains_key(other));
            assert(before@.remove(id).contains_key(other) == before@.contains_key(other));
        }
    }
    assert(after@.dom() =~= before@.dom());
    assert forall|other: LoanId|
        other != id && #[trigger] before@.contains_key(other) implies after@[other]
        == before@[other] by {
        assert(after@.remove(id)[other] == after@[other]);
        assert(before@.remove(id)[other] == before@[other]);
    }
}

/// What an update leaves under an identifier depends on the new parameters
/// and figures alone: nothing of the loan that stood there before remains.
pub proof fn lemma_update_forgets_previous_loan<A>(
    before: LoanRegistry<A>,
    after: LoanRegistry<A>,
    other_before: LoanRegistry<A>,
    other_after: LoanRegistry<A>,
    id: LoanId,
    params: LoanParams<A>,
    figures: InterestFigures<A>,
)
    requires
        before.replaces(&after, id, params, figures),
        other_before.replaces(&other_after, id, params, figures),
    ensures
        after@[id]@ == other_after@[id]@,
        after@[id]@.params == params,
        after@[id]@.total_interest() == figures.total,
        after@[id]@.daily_accruals() == other_after@[id]@.daily_accruals(),
{
}

} // verus!
