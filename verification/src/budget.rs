//! Budget admission: the five dimensions that every query is admitted with.
//!
//! A budget has no default: a query without one is invalid, and a caller
//! chooses all five ceilings. Admission turns the budget into a session, which
//! pins the monotonic reading that the deadline is measured from and is the
//! only way to spend. Every charge checks the deadline first.

use crate::result::{BudgetRefusal, Dimension, Magnitude};
use crate::spend::{ScanAllowance, SpendLedger};
use crate::{spend, time};
use std::time::{Duration, Instant};
use vstd::prelude::*;

verus! {

/// The budget a query is admitted with.
#[derive(Clone, Copy, Debug, PartialEq, Eq)]
pub struct QueryBudget {
    deadline: Duration,
    max_results: u64,
    max_bytes: u64,
    max_scan: u64,
    max_aggregation_memory: u64,
}

/// The mathematical reading of [`QueryBudget`].
pub ghost struct BudgetModel {
    /// The duration that the query may take.
    pub deadline: Duration,
    /// Entities returned.
    pub max_results: u64,
    /// Evidence bytes.
    pub max_bytes: u64,
    /// Entities examined.
    pub max_scan: u64,
    /// Aggregation memory.
    pub max_aggregation_memory: u64,
}

impl View for QueryBudget {
    type V = BudgetModel;

    closed spec fn view(&self) -> BudgetModel {
        BudgetModel {
            deadline: self.deadline,
            max_results: self.max_results,
            max_bytes: self.max_bytes,
            max_scan: self.max_scan,
            max_aggregation_memory: self.max_aggregation_memory,
        }
    }
}

impl QueryBudget {
    /// A budget with all five ceilings chosen.
    #[must_use]
    pub fn new(
        deadline: Duration,
        max_results: u64,
        max_bytes: u64,
        max_scan: u64,
        max_aggregation_memory: u64,
    ) -> (budget: QueryBudget)
        ensures
            budget@ == (BudgetModel {
                deadline,
                max_results,
                max_bytes,
                max_scan,
                max_aggregation_memory,
            }),
    {
        QueryBudget { deadline, max_results, max_bytes, max_scan, max_aggregation_memory }
    }

    /// The duration the query may take from admission on.
    #[must_use]
    pub fn deadline(&self) -> (deadline: Duration)
        ensures
            deadline == self@.deadline,
    {
        self.deadline
    }

    /// The ceiling on entities returned.
    #[must_use]
    pub fn max_results(&self) -> (ceiling: u64)
        ensures
            ceiling == self@.max_results,
    {
        self.max_results
    }

    /// The ceiling on evidence bytes.
    #[must_use]
    pub fn max_bytes(&self) -> (ceiling: u64)
        ensures
            ceiling == self@.max_bytes,
    {
        self.max_bytes
    }

    /// The ceiling on entities examined.
    #[must_use]
    pub fn max_scan(&self) -> (ceiling: u64)
        ensures
            ceiling == self@.max_scan,
    {
        self.max_scan
    }

    /// The ceiling on aggregation memory.
    #[must_use]
    pub fn max_aggregation_memory(&self) -> (ceiling: u64)
        ensures
            ceiling == self@.max_aggregation_memory,
    {
        self.max_aggregation_memory
    }

    /// Admits the query: the deadline is measured from `at`, and nothing has
    /// been spent.
    #[must_use]
    pub fn admit_at(self, at: Instant) -> (session: BudgetSession)
        ensures
            session@ == SessionModel::admitted(self@, at),
    {
        BudgetSession {
            budget: self,
            admitted_at: at,
            ledger: SpendLedger::new(
                self.max_results,
                self.max_bytes,
                self.max_scan,
                self.max_aggregation_memory,
            ),
        }
    }
}

/// One admitted query's budget in flight. It cannot be copied: a copy would
/// spend the same budget twice.
#[derive(Debug)]
pub struct BudgetSession {
    budget: QueryBudget,
    admitted_at: Instant,
    ledger: SpendLedger,
}

/// The mathematical reading of [`BudgetSession`].
pub ghost struct SessionModel {
    /// The budget that was admitted.
    pub budget: BudgetModel,
    /// The reading the deadline is measured from.
    pub admitted_at: Instant,
    /// What remains of the finite dimensions.
    pub ledger: spend::LedgerModel,
}

impl SessionModel {
    /// The session of a budget admitted at `at`.
    pub open spec fn admitted(budget: BudgetModel, at: Instant) -> SessionModel {
        SessionModel {
            budget,
            admitted_at: at,
            ledger: spend::LedgerModel::fresh(
                budget.max_results,
                budget.max_bytes,
                budget.max_scan,
                budget.max_aggregation_memory,
            ),
        }
    }

    /// The nanoseconds elapsed from admission to `now`.
    pub open spec fn elapsed_nanos(self, now: Instant) -> nat {
        time::nanos_between(now, self.admitted_at)
    }

    /// Whether the deadline has passed at `now`: as much time has elapsed as
    /// the budget allows.
    pub open spec fn expired(self, now: Instant) -> bool {
        self.elapsed_nanos(now) >= time::duration_nanos(self.budget.deadline)
    }

    /// The refusal of a charge made at `now`, past the deadline.
    pub open spec fn deadline_refusal(self, now: Instant) -> BudgetRefusal {
        BudgetRefusal {
            dimension: Dimension::Deadline,
            limit: Magnitude::Duration(self.budget.deadline),
            observed: Magnitude::Duration(time::elapsed_between(now, self.admitted_at)),
        }
    }

    /// The allowance of a charge made at `now`, past the deadline.
    pub open spec fn deadline_allowance(self, now: Instant) -> ScanAllowance {
        ScanAllowance::Partial { granted: 0, refusal: self.deadline_refusal(now) }
    }

    /// The session after a traversal asked at `now` for `want` results.
    pub open spec fn after_results(self, now: Instant, want: u64) -> SessionModel {
        if self.expired(now) {
            self
        } else {
            self.with_results(self.ledger.results.after_ask(want))
        }
    }

    /// What that ask is granted.
    pub open spec fn granted_results(self, now: Instant, want: u64) -> ScanAllowance {
        if self.expired(now) {
            self.deadline_allowance(now)
        } else {
            self.ledger.results.grant(Dimension::Results, want)
        }
    }

    /// The session after a traversal asked at `now` for `want` evidence bytes.
    pub open spec fn after_bytes(self, now: Instant, want: u64) -> SessionModel {
        if self.expired(now) {
            self
        } else {
            self.with_bytes(self.ledger.bytes.after_ask(want))
        }
    }

    /// What that ask is granted.
    pub open spec fn granted_bytes(self, now: Instant, want: u64) -> ScanAllowance {
        if self.expired(now) {
            self.deadline_allowance(now)
        } else {
            self.ledger.bytes.grant(Dimension::Bytes, want)
        }
    }

    /// The session after a traversal asked at `now` to examine `want`.
    pub open spec fn after_scan(self, now: Instant, want: u64) -> SessionModel {
        if self.expired(now) {
            self
        } else {
            self.with_scan(self.ledger.scan.after_ask(want))
        }
    }

    /// What that ask is granted.
    pub open spec fn granted_scan(self, now: Instant, want: u64) -> ScanAllowance {
        if self.expired(now) {
            self.deadline_allowance(now)
        } else {
            self.ledger.scan.grant(Dimension::Scan, want)
        }
    }

    /// The session after `unexamined` pulled records were given up.
    pub open spec fn after_settling(self, unexamined: u64) -> SessionModel {
        self.with_scan(self.ledger.scan.after_ask(unexamined))
    }

    /// The session after an aggregation charged `bytes` of memory at `now`, and what
    /// it is answered.
    pub open spec fn memory_charge(self, now: Instant, bytes: u64) -> (SessionModel, Result<
        (),
        BudgetRefusal,
    >) {
        if self.expired(now) {
            (self, Err(self.deadline_refusal(now)))
        } else {
            (
                self.with_memory(self.ledger.aggregation_memory.after_charge(bytes)),
                self.ledger.aggregation_memory.charged(Dimension::AggregationMemory, bytes),
            )
        }
    }

    /// The session after an aggregation charged the examination of `entities` at
    /// `now`, and what it is answered.
    pub open spec fn scan_charge(self, now: Instant, entities: u64) -> (SessionModel, Result<
        (),
        BudgetRefusal,
    >) {
        if self.expired(now) {
            (self, Err(self.deadline_refusal(now)))
        } else {
            (
                self.with_scan(self.ledger.scan.after_charge(entities)),
                self.ledger.scan.charged(Dimension::Scan, entities),
            )
        }
    }

    /// The session with another results allowance.
    pub open spec fn with_results(self, results: spend::AllowanceModel) -> SessionModel {
        SessionModel { ledger: spend::LedgerModel { results, ..self.ledger }, ..self }
    }

    /// The session with another bytes allowance.
    pub open spec fn with_bytes(self, bytes: spend::AllowanceModel) -> SessionModel {
        SessionModel { ledger: spend::LedgerModel { bytes, ..self.ledger }, ..self }
    }

    /// The session with another scan allowance.
    pub open spec fn with_scan(self, scan: spend::AllowanceModel) -> SessionModel {
        SessionModel { ledger: spend::LedgerModel { scan, ..self.ledger }, ..self }
    }

    /// The session with another memory allowance.
    pub open spec fn with_memory(
        self,
        aggregation_memory: spend::AllowanceModel,
    ) -> SessionModel {
        SessionModel { ledger: spend::LedgerModel { aggregation_memory, ..self.ledger }, ..self }
    }
}

impl View for BudgetSession {
    type V = SessionModel;

    closed spec fn view(&self) -> SessionModel {
        SessionModel {
            budget: self.budget@,
            admitted_at: self.admitted_at,
            ledger: self.ledger@,
        }
    }
}

impl BudgetSession {
    /// The time left at `now`: the admitted duration less what has elapsed,
    /// and never less than nothing.
    #[must_use]
    pub fn deadline_remaining(&self, now: Instant) -> (remaining: Duration)
        ensures
            time::duration_nanos(remaining) == time::nanos_beyond(
                time::duration_nanos(self@.budget.deadline),
                self@.elapsed_nanos(now),
            ),
    {
        self.budget.deadline().saturating_sub(now.saturating_duration_since(self.admitted_at))
    }

    /// Whether the deadline has passed at `now`.
    #[must_use]
    pub fn deadline_exhausted(&self, now: Instant) -> (exhausted: bool)
        ensures
            exhausted == self@.expired(now),
    {
        self.deadline_remaining(now).as_nanos() == 0
    }

    /// The budget the query was admitted with.
    #[must_use]
    pub fn budget(&self) -> (budget: QueryBudget)
        ensures
            budget@ == self@.budget,
    {
        self.budget
    }

    /// What remains of the finite dimensions, to be read only.
    #[must_use]
    pub fn ledger(&self) -> (ledger: &SpendLedger)
        ensures
            ledger@ == self@.ledger,
    {
        &self.ledger
    }

    /// A traversal asks at `now` for `want` entities to return.
    pub fn allow_results(&mut self, now: Instant, want: u64) -> (allowance: ScanAllowance)
        ensures
            final(self)@ == old(self)@.after_results(now, want),
            allowance == old(self)@.granted_results(now, want),
    {
        if self.deadline_exhausted(now) {
            return ScanAllowance::Partial { granted: 0, refusal: self.deadline_refusal(now) };
        }
        self.ledger.allow_results(want)
    }

    /// A traversal asks at `now` for `want` evidence bytes.
    pub fn allow_bytes(&mut self, now: Instant, want: u64) -> (allowance: ScanAllowance)
        ensures
            final(self)@ == old(self)@.after_bytes(now, want),
            allowance == old(self)@.granted_bytes(now, want),
    {
        if self.deadline_exhausted(now) {
            return ScanAllowance::Partial { granted: 0, refusal: self.deadline_refusal(now) };
        }
        self.ledger.allow_bytes(want)
    }

    /// A traversal asks at `now` to examine `want` entities.
    pub fn allow_scan(&mut self, now: Instant, want: u64) -> (allowance: ScanAllowance)
        ensures
            final(self)@ == old(self)@.after_scan(now, want),
            allowance == old(self)@.granted_scan(now, want),
            !old(self)@.expired(now) ==> old(self)@.ledger.scan.valid(),
    {
        if self.deadline_exhausted(now) {
            return ScanAllowance::Partial { granted: 0, refusal: self.deadline_refusal(now) };
        }
        self.ledger.allow_scan(want)
    }

    /// An aggregation charges `bytes` of memory at `now`.
    pub fn charge_aggregation_memory(&mut self, now: Instant, bytes: u64) -> (charged: Result<
        (),
        BudgetRefusal,
    >)
        ensures
            old(self)@.expired(now) ==> final(self)@ == old(self)@ && charged == Err::<
                (),
                BudgetRefusal,
            >(old(self)@.deadline_refusal(now)),
            !old(self)@.expired(now) ==> {
                &&& final(self)@ == old(self)@.with_memory(
                    old(self)@.ledger.aggregation_memory.after_charge(bytes),
                )
                &&& charged == old(self)@.ledger.aggregation_memory.charged(
                    Dimension::AggregationMemory,
                    bytes,
                )
            },
            (final(self)@, charged) == old(self)@.memory_charge(now, bytes),
    {
        if self.deadline_exhausted(now) {
            return Err(self.deadline_refusal(now));
        }
        self.ledger.charge_aggregation_memory(bytes)
    }

    /// An aggregation charges the examination of `entities` at `now`.
    pub fn charge_scan_strict(&mut self, now: Instant, entities: u64) -> (charged: Result<
        (),
        BudgetRefusal,
    >)
        ensures
            old(self)@.expired(now) ==> final(self)@ == old(self)@ && charged == Err::<
                (),
                BudgetRefusal,
            >(old(self)@.deadline_refusal(now)),
            !old(self)@.expired(now) ==> {
                &&& final(self)@ == old(self)@.with_scan(
                    old(self)@.ledger.scan.after_charge(entities),
                )
                &&& charged == old(self)@.ledger.scan.charged(Dimension::Scan, entities)
            },
            (final(self)@, charged) == old(self)@.scan_charge(now, entities),
    {
        if self.deadline_exhausted(now) {
            return Err(self.deadline_refusal(now));
        }
        self.ledger.charge_scan_strict(entities)
    }

    /// Charges records that were pulled but will not be examined: up to what
    /// is left of the scan ceiling, and whatever the deadline says, because
    /// the work is already done.
    pub fn settle_abandoned_scan(&mut self, unexamined: u64)
        ensures
            final(self)@ == old(self)@.after_settling(unexamined),
    {
        let _ = self.ledger.allow_scan(unexamined);
    }

    /// The refusal of a charge made at `now`, past the deadline.
    fn deadline_refusal(&self, now: Instant) -> (refusal: BudgetRefusal)
        ensures
            refusal == self@.deadline_refusal(now),
    {
        BudgetRefusal {
            dimension: Dimension::Deadline,
            limit: Magnitude::Duration(self.budget.deadline()),
            observed: Magnitude::Duration(now.saturating_duration_since(self.admitted_at)),
        }
    }
}

/// A deadline that has passed stays passed. It has passed exactly when as much
/// time has elapsed as was allowed, that is when none remains; before admission
/// no time has elapsed, and a deadline of nothing has passed at once.
pub proof fn a_passed_deadline_stays_passed(session: SessionModel, now: Instant, later: Instant)
    requires
        time::clock_nanos(now) <= time::clock_nanos(later),
    ensures
        session.expired(now) ==> session.expired(later),
        session.expired(now) <==> session.elapsed_nanos(now) >= time::duration_nanos(
            session.budget.deadline,
        ),
        session.expired(now) <==> time::nanos_beyond(
            time::duration_nanos(session.budget.deadline),
            session.elapsed_nanos(now),
        ) == 0,
        time::clock_nanos(now) <= time::clock_nanos(session.admitted_at) ==> session.elapsed_nanos(
            now,
        ) == 0,
        time::duration_nanos(session.budget.deadline) == 0 ==> session.expired(now),
{
}

/// Past the deadline nothing is granted and nothing is spent, whatever is
/// asked of whichever dimension.
pub proof fn past_the_deadline_nothing_is_spent(session: SessionModel, now: Instant, want: u64)
    requires
        session.expired(now),
    ensures
        session.after_results(now, want) == session,
        session.after_bytes(now, want) == session,
        session.after_scan(now, want) == session,
        session.granted_results(now, want) == session.deadline_allowance(now),
        session.granted_bytes(now, want) == session.deadline_allowance(now),
        session.granted_scan(now, want) == session.deadline_allowance(now),
{
}

/// A spend on one dimension leaves the other three as they were.
pub proof fn dimensions_are_spent_apart(session: SessionModel, now: Instant, want: u64)
    ensures
        session.after_results(now, want).ledger == (spend::LedgerModel {
            results: session.after_results(now, want).ledger.results,
            ..session.ledger
        }),
        session.after_bytes(now, want).ledger == (spend::LedgerModel {
            bytes: session.after_bytes(now, want).ledger.bytes,
            ..session.ledger
        }),
        session.after_scan(now, want).ledger == (spend::LedgerModel {
            scan: session.after_scan(now, want).ledger.scan,
            ..session.ledger
        }),
{
}

/// A budget says what it was made of, and a session starts with all of it, at the
/// reading that it was admitted at.
pub proof fn a_session_starts_with_its_budget(
    ceilings: (Duration, u64, u64, u64, u64),
    budget: QueryBudget,
    said: (Duration, u64, u64, u64, u64),
    at: Instant,
    session: BudgetSession,
    ledger: &SpendLedger,
    remaining: (u64, u64, u64, u64),
)
    requires
        call_ensures(QueryBudget::new, ceilings, budget),
        call_ensures(QueryBudget::deadline, (&budget,), said.0),
        call_ensures(QueryBudget::max_results, (&budget,), said.1),
        call_ensures(QueryBudget::max_bytes, (&budget,), said.2),
        call_ensures(QueryBudget::max_scan, (&budget,), said.3),
        call_ensures(QueryBudget::max_aggregation_memory, (&budget,), said.4),
        call_ensures(QueryBudget::admit_at, (budget, at), session),
        call_ensures(BudgetSession::ledger, (&session,), ledger),
        call_ensures(SpendLedger::remaining_results, (ledger,), remaining.0),
        call_ensures(SpendLedger::remaining_bytes, (ledger,), remaining.1),
        call_ensures(SpendLedger::remaining_scan, (ledger,), remaining.2),
        call_ensures(SpendLedger::remaining_aggregation_memory, (ledger,), remaining.3),
    ensures
        said == ceilings,
        remaining == (ceilings.1, ceilings.2, ceilings.3, ceilings.4),
        session@.admitted_at == at,
        session@.budget == budget@,
{
}

/// The deadline is measured on the monotonic clock from admission on: what remains
/// of it is the allowed time less what has elapsed, and it has passed once nothing
/// remains.
pub proof fn the_deadline_is_measured_from_admission(
    ceilings: (Duration, u64, u64, u64, u64),
    budget: QueryBudget,
    at: Instant,
    session: BudgetSession,
    now: Instant,
    remaining: Duration,
    exhausted: bool,
)
    requires
        call_ensures(QueryBudget::new, ceilings, budget),
        call_ensures(QueryBudget::admit_at, (budget, at), session),
        call_ensures(BudgetSession::deadline_remaining, (&session, now), remaining),
        call_ensures(BudgetSession::deadline_exhausted, (&session, now), exhausted),
    ensures
        ({
            let allowed = time::duration_nanos(ceilings.0) as int;
            let elapsed = if time::clock_nanos(now) > time::clock_nanos(at) {
                time::clock_nanos(now) - time::clock_nanos(at)
            } else {
                0
            };
            &&& exhausted <==> elapsed >= allowed
            &&& time::duration_nanos(remaining) == if elapsed < allowed {
                allowed - elapsed
            } else {
                0
            }
        }),
{
}

/// Before the deadline an ask is answered by its own dimension: what fits is
/// granted and leaves it, and what does not drains it.
pub proof fn an_ask_is_answered_by_its_dimension(session: SessionModel, now: Instant, want: u64)
    requires
        !session.expired(now),
    ensures
        ({
            let results = session.ledger.results.remaining;
            let bytes = session.ledger.bytes.remaining;
            let scan = session.ledger.scan.remaining;
            &&& session.granted_results(now, want) is Exact <==> want <= results
            &&& session.after_results(now, want).ledger.results.remaining == if want <= results {
                results - want
            } else {
                0
            }
            &&& session.granted_bytes(now, want) is Exact <==> want <= bytes
            &&& session.after_bytes(now, want).ledger.bytes.remaining == if want <= bytes {
                bytes - want
            } else {
                0
            }
            &&& session.granted_scan(now, want) is Exact <==> want <= scan
            &&& session.after_scan(now, want).ledger.scan.remaining == if want <= scan {
                scan - want
            } else {
                0
            }
            &&& session.granted_results(now, want) matches ScanAllowance::Partial { refusal, .. }
                ==> refusal.dimension == Dimension::Results
            &&& session.granted_bytes(now, want) matches ScanAllowance::Partial { refusal, .. }
                ==> refusal.dimension == Dimension::Bytes
            &&& session.granted_scan(now, want) matches ScanAllowance::Partial { refusal, .. }
                ==> refusal.dimension == Dimension::Scan
        }),
{
}

/// Past the deadline the refusal names it, with the time that was allowed and the
/// time that has elapsed, and grants nothing.
pub proof fn a_passed_deadline_is_named(session: SessionModel, now: Instant, want: u64)
    requires
        session.expired(now),
    ensures
        session.granted_results(now, want) matches ScanAllowance::Partial { granted, refusal } && {
            &&& granted == 0
            &&& refusal.dimension == Dimension::Deadline
            &&& refusal.limit == Magnitude::Duration(session.budget.deadline)
            &&& refusal.observed == Magnitude::Duration(
                time::elapsed_between(now, session.admitted_at),
            )
        },
        session.granted_bytes(now, want) == session.granted_results(now, want),
        session.granted_scan(now, want) == session.granted_results(now, want),
{
}

/// Records that were pulled and given up are charged to the scan ceiling, as far as
/// it goes, and to nothing else.
pub proof fn what_is_given_up_is_charged(session: SessionModel, unexamined: u64)
    ensures
        session.after_settling(unexamined).ledger.scan.remaining == if unexamined
            <= session.ledger.scan.remaining {
            session.ledger.scan.remaining - unexamined
        } else {
            0
        },
        session.after_settling(unexamined).ledger.results == session.ledger.results,
        session.after_settling(unexamined).ledger.bytes == session.ledger.bytes,
        session.after_settling(unexamined).ledger.aggregation_memory
            == session.ledger.aggregation_memory,
        session.after_settling(unexamined).budget == session.budget,
        session.after_settling(unexamined).admitted_at == session.admitted_at,
{
}

/// An aggregation's charge is all or nothing, and checks the deadline first: it is
/// taken exactly before the deadline, where something is left and it fits; any
/// other leaves the session as it was, and is told which dimension refused it.
pub proof fn an_aggregation_is_charged_whole_or_not_at_all(
    session: SessionModel,
    now: Instant,
    charge: u64,
)
    requires
        session.ledger.valid(),
    ensures
        ({
            let memory = session.ledger.aggregation_memory.remaining;
            let (after, charged) = session.memory_charge(now, charge);
            &&& charged is Ok <==> !session.expired(now) && 0 < memory && charge <= memory
            &&& charged is Ok ==> after.ledger.aggregation_memory.remaining == memory - charge
                && after.ledger.results == session.ledger.results && after.ledger.bytes
                == session.ledger.bytes && after.ledger.scan == session.ledger.scan
            &&& charged matches Err(refusal) ==> after == session && refusal.dimension
                == if session.expired(now) {
                Dimension::Deadline
            } else {
                Dimension::AggregationMemory
            }
        }),
        ({
            let scan = session.ledger.scan.remaining;
            let (after, charged) = session.scan_charge(now, charge);
            &&& charged is Ok <==> !session.expired(now) && 0 < scan && charge <= scan
            &&& charged is Ok ==> after.ledger.scan.remaining == scan - charge
                && after.ledger.results == session.ledger.results && after.ledger.bytes
                == session.ledger.bytes && after.ledger.aggregation_memory
                == session.ledger.aggregation_memory
            &&& charged matches Err(refusal) ==> after == session && refusal.dimension
                == if session.expired(now) {
                Dimension::Deadline
            } else {
                Dimension::Scan
            }
        }),
{
}

}
