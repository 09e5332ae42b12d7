//! The transport edge's budget: how many bytes of request bodies may be buffered
//! at once.
//!
//! A request charges the budget before its body is buffered and gives the charge
//! back when it is done. The budget refuses a charge that would take the total
//! past its ceiling. The total is an atomic counter, shared by every transport:
//! what it holds between two calls is decided by all the requests in flight.

use std::sync::atomic::{AtomicUsize, Ordering};
use std::sync::Arc;
use vstd::prelude::*;

verus! {

/// The total after a charge, where the budget admits it.
pub open spec fn total_after(total: usize, charge: usize, ceiling_bytes: usize) -> Option<usize> {
    if total + charge <= ceiling_bytes {
        Some((total + charge) as usize)
    } else {
        None
    }
}

/// The total after a charge, where the budget admits it: it must not pass the
/// ceiling.
pub fn charged_total(total: usize, charge: usize, ceiling_bytes: usize) -> (after: Option<usize>)
    ensures
        after == total_after(total, charge, ceiling_bytes),
{
    match total.checked_add(charge) {
        Some(after) => if after <= ceiling_bytes {
            Some(after)
        } else {
            None
        },
        None => None,
    }
}

/// What a body charges: its declared length, where that is within the payload
/// ceiling, and otherwise the ceiling, which is the most that a bounded read
/// buffers.
pub fn body_charge(declared: Option<u64>, payload_ceiling_bytes: usize) -> (charge: usize)
    ensures
        charge == match declared {
            Some(length) => if length <= payload_ceiling_bytes {
                length as usize
            } else {
                payload_ceiling_bytes
            },
            None => payload_ceiling_bytes,
        },
{
    match declared {
        Some(length) => if length <= payload_ceiling_bytes as u64 {
            length as usize
        } else {
            payload_ceiling_bytes
        },
        None => payload_ceiling_bytes,
    }
}

/// `AtomicUsize::fetch_update` with [`charged_total`]: the counter is replaced
/// by what `charged_total` makes of it, in one step. `Ok` and `Err` both carry
/// the total that the step found; it was replaced exactly where the result is
/// `Ok`. Which total that is depends on the other requests in flight.
#[verifier::external_body]
fn charge_counter(counter: &AtomicUsize, charge: usize, ceiling_bytes: usize) -> (found: Result<
    usize,
    usize,
>)
    ensures
        match found {
            Ok(total) => total_after(total, charge, ceiling_bytes) is Some,
            Err(total) => total_after(total, charge, ceiling_bytes) is None,
        },
{
    counter.fetch_update(Ordering::AcqRel, Ordering::Relaxed, |total| {
        charged_total(total, charge, ceiling_bytes)
    })
}

/// `AtomicUsize::fetch_sub`: takes a charge off the counter, in one step, says
/// which total the step found, and does not unwind. Which total that is depends
/// on the other requests in flight.
#[verifier::external_body]
fn uncharge_counter(counter: &AtomicUsize, charge: usize) -> (found: usize)
    opens_invariants none
    no_unwind
{
    counter.fetch_sub(charge, Ordering::AcqRel)
}

/// `Arc::clone`: another pointer to the same budget.
#[verifier::external_body]
fn share(budget: &Arc<InflightBodyBudget>) -> (other: Arc<InflightBodyBudget>)
    ensures
        other == *budget,
{
    Arc::clone(budget)
}

/// The budget of bytes that may be buffered at once.
#[derive(Debug)]
pub struct InflightBodyBudget {
    ceiling_bytes: usize,
    in_flight: AtomicUsize,
}

impl InflightBodyBudget {
    /// The ceiling.
    pub closed spec fn ceiling(self) -> usize {
        self.ceiling_bytes
    }

    /// A budget with this ceiling, charged with nothing.
    #[must_use]
    pub fn new(ceiling_bytes: usize) -> (budget: InflightBodyBudget)
        ensures
            budget.ceiling() == ceiling_bytes,
            budget.fresh(),
    {
        let counter = AtomicUsize::new;
        InflightBodyBudget { ceiling_bytes, in_flight: counter(0) }
    }

    /// Whether this budget's counter is one that `AtomicUsize::new` makes of
    /// nothing charged.
    pub closed spec fn fresh(self) -> bool {
        call_ensures(AtomicUsize::new, (0usize,), self.in_flight)
    }

    /// The ceiling.
    #[must_use]
    pub fn ceiling_bytes(&self) -> (ceiling_bytes: usize)
        ensures
            ceiling_bytes == self.ceiling(),
    {
        self.ceiling_bytes
    }

    /// Whether a read of this budget's counter, by `AtomicUsize::load`, may find
    /// this total. Which totals it may find is not said: that depends on the
    /// other requests in flight.
    pub closed spec fn may_read(self, total: usize) -> bool {
        call_ensures(AtomicUsize::load, (&self.in_flight, Ordering::Relaxed), total)
    }

    /// The bytes charged at the moment: what a read of this budget's counter
    /// finds.
    #[must_use]
    pub fn in_flight(&self) -> (total: usize)
        ensures
            self.may_read(total),
    {
        let read = AtomicUsize::load;
        read(&self.in_flight, Ordering::Relaxed)
    }

    /// Whether a step of [`charge_counter`] on this budget's counter, with this
    /// charge and the budget's ceiling, may end so: with the total that it
    /// found, charged or not.
    pub closed spec fn may_step(self, charge: usize, found: Result<usize, usize>) -> bool {
        call_ensures(charge_counter, (&self.in_flight, charge, self.ceiling_bytes), found)
    }

    /// Whether a step of [`uncharge_counter`] on this budget's counter, with this
    /// charge, may find this total.
    pub closed spec fn may_give_back(self, charge: usize, found: usize) -> bool {
        call_ensures(uncharge_counter, (&self.in_flight, charge), found)
    }

    /// Whether asking for this charge may be answered so, where the step on the
    /// budget's counter finds this total: with a guard of that charge on this
    /// budget, exactly where the charge fits.
    pub open spec fn may_acquire(
        self,
        charge: usize,
        acquired: Option<Acquired>,
        found: usize,
    ) -> bool {
        match acquired {
            Some(guard) => {
                &&& guard.charged() == charge
                &&& guard.charged_to() == self
                &&& self.may_step(charge, Ok(found))
                &&& total_after(found, charge, self.ceiling()) is Some
            },
            None => {
                &&& self.may_step(charge, Err(found))
                &&& total_after(found, charge, self.ceiling()) is None
            },
        }
    }

    /// Charges the budget, unless that would take it past its ceiling, in one
    /// step on its counter. The charge is given back when the guard is dropped.
    #[must_use]
    pub fn try_acquire(self: &Arc<Self>, charge: usize) -> (acquired: Option<Acquired>)
        ensures
            exists|found: usize| self.may_acquire(charge, acquired, found),
    {
        match charge_counter(&self.in_flight, charge, self.ceiling_bytes) {
            Ok(found) => {
                let acquired = Some(Acquired { budget: share(self), charge });
                assert(self.may_acquire(charge, acquired, found));
                acquired
            },
            Err(found) => {
                assert(self.may_acquire(charge, None, found));
                None
            },
        }
    }

    /// Gives back a charge, in one step on the budget's counter.
    pub fn release(&self, charge: usize)
        ensures
            exists|found: usize| self.may_give_back(charge, found),
        opens_invariants none
        no_unwind
    {
        let found: usize = uncharge_counter(&self.in_flight, charge);
        assert(self.may_give_back(charge, found));
    }
}

/// A charge held on a budget; dropping it gives the charge back.
#[derive(Debug)]
pub struct Acquired {
    budget: Arc<InflightBodyBudget>,
    charge: usize,
}

impl Acquired {
    /// The bytes charged.
    pub closed spec fn charged(self) -> usize {
        self.charge
    }

    /// The budget they are charged to.
    pub closed spec fn charged_to(self) -> InflightBodyBudget {
        *self.budget
    }

    /// Whether dropping this guard, which gives its charge back to its budget in
    /// one step on the counter, may find this total.
    pub open spec fn may_drop(self, found: usize) -> bool {
        self.charged_to().may_give_back(self.charged(), found)
    }
}

impl Drop for Acquired {
    fn drop(&mut self)
        ensures
            exists|found: usize| old(self).may_drop(found),
        opens_invariants none
        no_unwind
    {
        let ghost guard = *self;
        self.budget.release(self.charge);
        proof {
            let found = choose|found: usize|
                guard.charged_to().may_give_back(guard.charged(), found);
            assert(guard.may_drop(found));
        }
    }
}

/// One call on a budget, with what it returned and the total that its step on the
/// counter found.
pub ghost enum BudgetCall {
    /// `try_acquire`.
    TryAcquire {
        /// The charge asked for.
        charge: usize,
        /// The guard, where the charge was admitted.
        acquired: Option<Acquired>,
        /// The total found.
        found: usize,
    },
    /// The live guard with this index was dropped, or its charge was given back
    /// in its place.
    GiveBack {
        /// The guard.
        index: int,
        /// The total found.
        found: usize,
    },
    /// `in_flight`.
    InFlight {
        /// The total returned.
        total: usize,
    },
}

/// The live guards after a call.
pub open spec fn live_after(live: Seq<Acquired>, call: BudgetCall) -> Seq<Acquired> {
    match call {
        BudgetCall::TryAcquire { acquired, .. } => match acquired {
            Some(guard) => live.push(guard),
            None => live,
        },
        BudgetCall::GiveBack { index, .. } => if 0 <= index < live.len() {
            live.remove(index)
        } else {
            live
        },
        BudgetCall::InFlight { .. } => live,
    }
}

/// The live guards after a sequence of calls.
pub open spec fn live(calls: Seq<BudgetCall>) -> Seq<Acquired>
    decreases calls.len(),
{
    if calls.len() == 0 {
        Seq::empty()
    } else {
        live_after(live(calls.drop_last()), calls.last())
    }
}

/// The sum of the charges of these guards.
pub open spec fn total_charged(guards: Seq<Acquired>) -> int
    decreases guards.len(),
{
    if guards.len() == 0 {
        0
    } else {
        total_charged(guards.drop_last()) + guards.last().charged()
    }
}

/// Whether a call on a budget with these live guards may go so.
pub open spec fn may_go(
    budget: InflightBodyBudget,
    live: Seq<Acquired>,
    call: BudgetCall,
) -> bool {
    match call {
        BudgetCall::TryAcquire { charge, acquired, found } => budget.may_acquire(
            charge,
            acquired,
            found,
        ),
        BudgetCall::GiveBack { index, found } => 0 <= index < live.len() && live[index].may_drop(
            found,
        ),
        BudgetCall::InFlight { total } => budget.may_read(total),
    }
}

/// The total that a call found.
pub open spec fn total_found(call: BudgetCall) -> int {
    match call {
        BudgetCall::TryAcquire { found, .. } => found as int,
        BudgetCall::GiveBack { found, .. } => found as int,
        BudgetCall::InFlight { total } => total as int,
    }
}

/// The total that a call leaves: an admitted charge is on it, one given back is
/// off it.
pub open spec fn total_left(live: Seq<Acquired>, call: BudgetCall) -> int {
    match call {
        BudgetCall::TryAcquire { charge, acquired, found } => if acquired is Some {
            found + charge
        } else {
            found as int
        },
        BudgetCall::GiveBack { index, found } => found - live[index].charged(),
        BudgetCall::InFlight { total } => total as int,
    }
}

/// The total that the first `count` calls leave on a counter that starts at
/// nothing.
pub open spec fn total_at(calls: Seq<BudgetCall>, count: int) -> int {
    if count <= 0 {
        0
    } else {
        total_left(live(calls.take(count - 1)), calls[count - 1])
    }
}

/// Whether these are all the calls on a budget since it was made, one after the
/// other: each may go so, and finds the total that the one before it left.
pub open spec fn in_turn(budget: InflightBodyBudget, calls: Seq<BudgetCall>) -> bool {
    &&& budget.fresh()
    &&& forall|i: int|
        0 <= i < calls.len() ==> {
            &&& may_go(budget, live(calls.take(i)), #[trigger] calls[i])
            &&& total_found(calls[i]) == total_at(calls, i)
        }
}

proof fn removing_takes_the_charge_off(guards: Seq<Acquired>, index: int)
    requires
        0 <= index < guards.len(),
    ensures
        total_charged(guards.remove(index)) == total_charged(guards) - guards[index].charged(),
    decreases guards.len(),
{
    if index == guards.len() - 1 {
        assert(guards.remove(index) =~= guards.drop_last());
    } else {
        removing_takes_the_charge_off(guards.drop_last(), index);
        assert(guards.remove(index).drop_last() =~= guards.drop_last().remove(index));
        assert(guards.remove(index).last() == guards.last());
    }
}

proof fn totals_are_not_negative(guards: Seq<Acquired>)
    ensures
        total_charged(guards) >= 0,
    decreases guards.len(),
{
    if guards.len() > 0 {
        totals_are_not_negative(guards.drop_last());
    }
}

/// A budget accounts for every charge. Where these are all the calls on it, one
/// after the other, the total is the sum of the live guards' charges, and never
/// passes the ceiling. A charge is admitted exactly when it fits beside those,
/// and is then on the total; a refused one leaves the total; one given back is
/// off it; a read returns it. Once no guard is live, it is nothing.
pub proof fn a_budget_accounts_for_every_charge(
    budget: InflightBodyBudget,
    calls: Seq<BudgetCall>,
    count: int,
)
    requires
        in_turn(budget, calls),
        0 <= count <= calls.len(),
    ensures
        ({
            let guards = live(calls.take(count));
            let total = total_charged(guards);
            &&& total_at(calls, count) == total
            &&& 0 <= total <= budget.ceiling()
            &&& guards.len() == 0 ==> total == 0
            &&& forall|i: int|
                0 <= i < guards.len() ==> (#[trigger] guards[i]).charged_to() == budget
            &&& count < calls.len() ==> total_found(calls[count]) == total
            &&& count < calls.len() ==> match calls[count] {
                BudgetCall::TryAcquire { charge, acquired, .. } => {
                    &&& acquired is Some <==> total + charge <= budget.ceiling()
                    &&& total_at(calls, count + 1) == if acquired is Some {
                        total + charge
                    } else {
                        total
                    }
                },
                BudgetCall::GiveBack { index, .. } => total_at(calls, count + 1) == total
                    - guards[index].charged(),
                BudgetCall::InFlight { total: returned } => returned == total && total_at(
                    calls,
                    count + 1,
                ) == total,
            }
        }),
    decreases count,
{
    let guards = live(calls.take(count));
    if count == 0 {
        assert(calls.take(0).len() == 0);
    } else {
        let index = count - 1;
        a_budget_accounts_for_every_charge(budget, calls, index);
        let before = live(calls.take(index));
        assert(calls.take(count).drop_last() =~= calls.take(index));
        assert(calls.take(count).last() == calls[index]);
        assert(may_go(budget, before, calls[index]));
        match calls[index] {
            BudgetCall::TryAcquire { acquired, .. } => {
                if let Some(guard) = acquired {
                    assert(before.push(guard).drop_last() =~= before);
                }
            },
            BudgetCall::GiveBack { index: given_back, .. } => {
                removing_takes_the_charge_off(before, given_back);
            },
            BudgetCall::InFlight { .. } => {},
        }
        totals_are_not_negative(guards);
        assert forall|i: int| 0 <= i < guards.len() implies (#[trigger] guards[i]).charged_to()
            == budget by {
            if let BudgetCall::GiveBack { index: given_back, .. } = calls[index] {
                if i < given_back {
                    assert(guards[i] == before[i]);
                } else {
                    assert(guards[i] == before[i + 1]);
                }
            } else if i < before.len() {
                assert(guards[i] == before[i]);
            }
        }
    }
    if count < calls.len() {
        assert(may_go(budget, guards, calls[count]));
    }
}

/// A charge given back is as if it had never been made. Where a guard was
/// acquired, and dropped or its charge released in its place, with nothing in
/// between, that leaves the total that the charge found; and the charge, asked
/// for again, is admitted again.
pub proof fn a_charge_given_back_is_as_if_never_made(
    budget: InflightBodyBudget,
    charge: usize,
    guard: Acquired,
    found: usize,
    given_back: usize,
    again: Option<Acquired>,
    found_again: usize,
)
    requires
        budget.may_acquire(charge, Some(guard), found),
        guard.may_drop(given_back) || budget.may_give_back(charge, given_back),
        given_back == found + charge,
        budget.may_acquire(charge, again, found_again),
        found_again == given_back - charge,
    ensures
        given_back - charge == found,
        again is Some,
        again->Some_0.charged() == charge,
{
}

/// A charge is admitted exactly where it fits under the ceiling, and is then on the
/// total; no sum wraps around.
pub proof fn a_charge_is_admitted_where_it_fits(
    total: usize,
    charge: usize,
    ceiling_bytes: usize,
    after: Option<usize>,
)
    requires
        call_ensures(charged_total, (total, charge, ceiling_bytes), after),
    ensures
        after is Some <==> total + charge <= ceiling_bytes,
        after matches Some(after) ==> after == total + charge,
{
}

/// A body is charged with what it declares, and never with more than the payload
/// ceiling, which is also what one is charged with that declares nothing.
pub proof fn a_body_is_charged_with_what_it_declares(
    declared: Option<u64>,
    payload_ceiling_bytes: usize,
    charge: usize,
)
    requires
        call_ensures(body_charge, (declared, payload_ceiling_bytes), charge),
    ensures
        charge <= payload_ceiling_bytes,
        declared is None ==> charge == payload_ceiling_bytes,
        declared matches Some(length) ==> charge == if length <= payload_ceiling_bytes {
            length as int
        } else {
            payload_ceiling_bytes as int
        },
{
}

/// A budget has the ceiling that it was made with.
pub proof fn a_budget_has_its_ceiling(
    ceiling_bytes: usize,
    budget: InflightBodyBudget,
    said: usize,
)
    requires
        call_ensures(InflightBodyBudget::new, (ceiling_bytes,), budget),
        call_ensures(InflightBodyBudget::ceiling_bytes, (&budget,), said),
    ensures
        said == ceiling_bytes,
        budget.fresh(),
{
}

}
