//! The spend ledger: what remains of each finite budget dimension, and the
//! arithmetic of charging against it.
//!
//! There are two shapes of charge. A traversal takes an *allowance*: whatever
//! fits is granted, and the shortfall comes back as a refusal. An aggregation
//! is charged *strictly*: all or nothing. A refusal names the dimension, its
//! limit, and the total spend when it expired. The deadline is not ledger
//! arithmetic: it is time, and belongs to the admitted session.

use crate::result::{BudgetRefusal, Dimension, Magnitude};
use vstd::prelude::*;

verus! {

/// What a traversal-shaped charge may take.
#[must_use]
#[derive(Clone, Copy, Debug, PartialEq, Eq)]
pub enum ScanAllowance {
    /// The whole ask fits.
    Exact(u64),
    /// Only part of the ask fits.
    Partial {
        /// What was granted.
        granted: u64,
        /// The refusal of the rest.
        refusal: BudgetRefusal,
    },
}

/// One dimension's allowance: the caller's limit and what is left of it.
#[derive(Debug)]
struct Allowance {
    limit: u64,
    remaining: u64,
}

/// The mathematical reading of one dimension's allowance.
pub ghost struct AllowanceModel {
    /// The caller's limit.
    pub limit: u64,
    /// What is left of it.
    pub remaining: u64,
}

impl AllowanceModel {
    /// What has been spent.
    pub open spec fn spent(self) -> u64 {
        (self.limit - self.remaining) as u64
    }

    /// No more is left than was allowed.
    pub open spec fn valid(self) -> bool {
        self.remaining <= self.limit
    }

    /// The refusal that names this dimension with its spend `observed`.
    pub open spec fn refusal(self, dimension: Dimension, observed: u64) -> BudgetRefusal {
        BudgetRefusal {
            dimension,
            limit: stated(dimension, self.limit),
            observed: stated(dimension, observed),
        }
    }

    /// What is left after a traversal asked for `want`.
    pub open spec fn after_ask(self, want: u64) -> AllowanceModel {
        AllowanceModel {
            limit: self.limit,
            remaining: if want <= self.remaining {
                (self.remaining - want) as u64
            } else {
                0
            },
        }
    }

    /// What a traversal that asks for `want` is granted. A partial grant
    /// drains the dimension, so the observed spend is its limit.
    pub open spec fn grant(self, dimension: Dimension, want: u64) -> ScanAllowance {
        if want <= self.remaining {
            ScanAllowance::Exact(want)
        } else {
            ScanAllowance::Partial {
                granted: self.remaining,
                refusal: self.refusal(dimension, self.limit),
            }
        }
    }

    /// Whether an aggregation may charge `charge`: it must fit, and an
    /// exhausted dimension admits no charge at all, not even of nothing.
    pub open spec fn admits(self, charge: u64) -> bool {
        self.remaining > 0 && charge <= self.remaining
    }

    /// What is left after an aggregation charged `charge`.
    pub open spec fn after_charge(self, charge: u64) -> AllowanceModel {
        if self.admits(charge) {
            AllowanceModel { limit: self.limit, remaining: (self.remaining - charge) as u64 }
        } else {
            self
        }
    }

    /// What an aggregation that charges `charge` is answered.
    pub open spec fn charged(self, dimension: Dimension, charge: u64) -> Result<
        (),
        BudgetRefusal,
    > {
        if self.admits(charge) {
            Ok(())
        } else {
            Err(self.refusal(dimension, self.spent()))
        }
    }
}

/// The magnitude in which `dimension` states `amount`: bytes for the two byte
/// ceilings, units for the counts.
pub open spec fn stated(dimension: Dimension, amount: u64) -> Magnitude {
    match dimension {
        Dimension::Bytes | Dimension::AggregationMemory => Magnitude::Bytes(amount),
        _ => Magnitude::Units(amount),
    }
}

fn state(dimension: Dimension, amount: u64) -> (magnitude: Magnitude)
    ensures
        magnitude == stated(dimension, amount),
{
    match dimension {
        Dimension::Bytes | Dimension::AggregationMemory => Magnitude::Bytes(amount),
        _ => Magnitude::Units(amount),
    }
}

impl Allowance {
    #[verifier::type_invariant]
    spec fn valid(self) -> bool {
        self.remaining <= self.limit
    }

    spec fn view(&self) -> AllowanceModel {
        AllowanceModel { limit: self.limit, remaining: self.remaining }
    }

    fn new(limit: u64) -> (allowance: Allowance)
        ensures
            allowance@ == (AllowanceModel { limit, remaining: limit }),
    {
        Allowance { limit, remaining: limit }
    }

    /// The traversal shape: grants what fits of `want`.
    fn degrade(&mut self, dimension: Dimension, want: u64) -> (allowance: ScanAllowance)
        ensures
            final(self)@ == old(self)@.after_ask(want),
            allowance == old(self)@.grant(dimension, want),
            old(self)@.valid(),
    {
        proof {
            use_type_invariant(&*self);
        }
        if want <= self.remaining {
            self.remaining = self.remaining - want;
            return ScanAllowance::Exact(want);
        }
        let granted: u64 = self.remaining;
        self.remaining = 0;
        ScanAllowance::Partial {
            granted,
            refusal: BudgetRefusal {
                dimension,
                limit: state(dimension, self.limit),
                observed: state(dimension, self.limit - self.remaining),
            },
        }
    }

    /// The aggregation shape: all or nothing.
    fn charge_strict(&mut self, dimension: Dimension, charge: u64) -> (charged: Result<
        (),
        BudgetRefusal,
    >)
        ensures
            final(self)@ == old(self)@.after_charge(charge),
            charged == old(self)@.charged(dimension, charge),
    {
        proof {
            use_type_invariant(&*self);
        }
        if self.remaining == 0 || charge > self.remaining {
            return Err(
                BudgetRefusal {
                    dimension,
                    limit: state(dimension, self.limit),
                    observed: state(dimension, self.limit - self.remaining),
                },
            );
        }
        self.remaining = self.remaining - charge;
        Ok(())
    }
}

/// The spend ledger of one admitted query: the remaining allowance of its four
/// finite dimensions.
#[derive(Debug)]
pub struct SpendLedger {
    results: Allowance,
    bytes: Allowance,
    scan: Allowance,
    aggregation_memory: Allowance,
}

/// The mathematical reading of [`SpendLedger`].
pub ghost struct LedgerModel {
    /// Entities returned.
    pub results: AllowanceModel,
    /// Evidence bytes.
    pub bytes: AllowanceModel,
    /// Entities examined.
    pub scan: AllowanceModel,
    /// Aggregation memory.
    pub aggregation_memory: AllowanceModel,
}

impl LedgerModel {
    /// A ledger on which nothing has been spent.
    pub open spec fn fresh(
        max_results: u64,
        max_bytes: u64,
        max_scan: u64,
        max_aggregation_memory: u64,
    ) -> LedgerModel {
        LedgerModel {
            results: AllowanceModel { limit: max_results, remaining: max_results },
            bytes: AllowanceModel { limit: max_bytes, remaining: max_bytes },
            scan: AllowanceModel { limit: max_scan, remaining: max_scan },
            aggregation_memory: AllowanceModel {
                limit: max_aggregation_memory,
                remaining: max_aggregation_memory,
            },
        }
    }

    /// No dimension has more left than it allowed.
    pub open spec fn valid(self) -> bool {
        self.results.valid() && self.bytes.valid() && self.scan.valid()
            && self.aggregation_memory.valid()
    }
}

impl View for SpendLedger {
    type V = LedgerModel;

    closed spec fn view(&self) -> LedgerModel {
        LedgerModel {
            results: self.results@,
            bytes: self.bytes@,
            scan: self.scan@,
            aggregation_memory: self.aggregation_memory@,
        }
    }
}

impl SpendLedger {
    /// A ledger on which nothing has been spent.
    #[must_use]
    pub fn new(
        max_results: u64,
        max_bytes: u64,
        max_scan: u64,
        max_aggregation_memory: u64,
    ) -> (ledger: SpendLedger)
        ensures
            ledger@ == LedgerModel::fresh(
                max_results,
                max_bytes,
                max_scan,
                max_aggregation_memory,
            ),
    {
        SpendLedger {
            results: Allowance::new(max_results),
            bytes: Allowance::new(max_bytes),
            scan: Allowance::new(max_scan),
            aggregation_memory: Allowance::new(max_aggregation_memory),
        }
    }

    /// A traversal asks for `want` entities to return.
    pub fn allow_results(&mut self, want: u64) -> (allowance: ScanAllowance)
        ensures
            final(self)@ == (LedgerModel {
                results: old(self)@.results.after_ask(want),
                ..old(self)@
            }),
            allowance == old(self)@.results.grant(Dimension::Results, want),
            old(self)@.results.valid(),
    {
        self.results.degrade(Dimension::Results, want)
    }

    /// A traversal asks for `want` evidence bytes.
    pub fn allow_bytes(&mut self, want: u64) -> (allowance: ScanAllowance)
        ensures
            final(self)@ == (LedgerModel {
                bytes: old(self)@.bytes.after_ask(want),
                ..old(self)@
            }),
            allowance == old(self)@.bytes.grant(Dimension::Bytes, want),
            old(self)@.bytes.valid(),
    {
        self.bytes.degrade(Dimension::Bytes, want)
    }

    /// A traversal asks to examine `want` entities.
    pub fn allow_scan(&mut self, want: u64) -> (allowance: ScanAllowance)
        ensures
            final(self)@ == (LedgerModel {
                scan: old(self)@.scan.after_ask(want),
                ..old(self)@
            }),
            allowance == old(self)@.scan.grant(Dimension::Scan, want),
            old(self)@.scan.valid(),
    {
        self.scan.degrade(Dimension::Scan, want)
    }

    /// An aggregation charges `bytes` of memory.
    pub fn charge_aggregation_memory(&mut self, bytes: u64) -> (charged: Result<
        (),
        BudgetRefusal,
    >)
        ensures
            final(self)@ == (LedgerModel {
                aggregation_memory: old(self)@.aggregation_memory.after_charge(bytes),
                ..old(self)@
            }),
            charged == old(self)@.aggregation_memory.charged(Dimension::AggregationMemory, bytes),
    {
        self.aggregation_memory.charge_strict(Dimension::AggregationMemory, bytes)
    }

    /// An aggregation charges the examination of `entities`.
    pub fn charge_scan_strict(&mut self, entities: u64) -> (charged: Result<(), BudgetRefusal>)
        ensures
            final(self)@ == (LedgerModel {
                scan: old(self)@.scan.after_charge(entities),
                ..old(self)@
            }),
            charged == old(self)@.scan.charged(Dimension::Scan, entities),
    {
        self.scan.charge_strict(Dimension::Scan, entities)
    }

    /// What is left of the results ceiling.
    #[must_use]
    pub fn remaining_results(&self) -> (remaining: u64)
        ensures
            remaining == self@.results.remaining,
    {
        self.results.remaining
    }

    /// What is left of the bytes ceiling.
    #[must_use]
    pub fn remaining_bytes(&self) -> (remaining: u64)
        ensures
            remaining == self@.bytes.remaining,
    {
        self.bytes.remaining
    }

    /// What is left of the scan ceiling.
    #[must_use]
    pub fn remaining_scan(&self) -> (remaining: u64)
        ensures
            remaining == self@.scan.remaining,
    {
        self.scan.remaining
    }

    /// What is left of the aggregation-memory ceiling.
    #[must_use]
    pub fn remaining_aggregation_memory(&self) -> (remaining: u64)
        ensures
            remaining == self@.aggregation_memory.remaining,
    {
        self.aggregation_memory.remaining
    }
}

/// Whatever a traversal asks, no more is granted than asked, no more than was
/// left, and exactly the grant leaves the dimension; the limit stays. An ask
/// of nothing is always granted, and a shortfall drains the dimension and
/// names its limit as the observed spend.
pub proof fn a_grant_is_what_leaves_the_dimension(
    allowance: AllowanceModel,
    dimension: Dimension,
    want: u64,
)
    requires
        allowance.valid(),
    ensures
        ({
            let after = allowance.after_ask(want);
            let granted = match allowance.grant(dimension, want) {
                ScanAllowance::Exact(granted) => granted,
                ScanAllowance::Partial { granted, .. } => granted,
            };
            &&& granted <= want
            &&& granted <= allowance.remaining
            &&& after.remaining == allowance.remaining - granted
            &&& after.limit == allowance.limit
            &&& after.valid()
            &&& want == 0 ==> allowance.grant(dimension, want) == ScanAllowance::Exact(0)
            &&& allowance.grant(dimension, want) is Partial ==> after.remaining == 0
                && after.spent() == allowance.limit
        }),
{
}

/// A strict charge is all or nothing: an admitted one takes exactly its
/// amount, a refused one leaves the dimension as it was and names the spend
/// already on the books. An exhausted dimension refuses every charge.
pub proof fn a_strict_charge_is_all_or_nothing(
    allowance: AllowanceModel,
    dimension: Dimension,
    charge: u64,
)
    requires
        allowance.valid(),
    ensures
        allowance.charged(dimension, charge) is Ok ==> allowance.after_charge(charge).remaining
            == allowance.remaining - charge,
        allowance.charged(dimension, charge) is Err ==> allowance.after_charge(charge)
            == allowance && allowance.charged(dimension, charge)->Err_0.observed == stated(
            dimension,
            allowance.spent(),
        ),
        allowance.remaining == 0 ==> allowance.charged(dimension, charge) is Err,
        allowance.after_charge(charge).valid(),
        allowance.after_charge(charge).limit == allowance.limit,
{
}

/// The spend of a sequence of traversal asks never passes the limit, however
/// many there are and whatever they ask.
pub proof fn asks_never_pass_the_limit(allowance: AllowanceModel, asks: Seq<u64>)
    requires
        allowance.valid(),
    ensures
        after_asks(allowance, asks).valid(),
        after_asks(allowance, asks).limit == allowance.limit,
        after_asks(allowance, asks).remaining <= allowance.remaining,
    decreases asks.len(),
{
    if asks.len() > 0 {
        asks_never_pass_the_limit(allowance, asks.drop_last());
    }
}

/// What is left after a sequence of traversal asks.
pub open spec fn after_asks(allowance: AllowanceModel, asks: Seq<u64>) -> AllowanceModel
    decreases asks.len(),
{
    if asks.len() == 0 {
        allowance
    } else {
        after_asks(allowance, asks.drop_last()).after_ask(asks.last())
    }
}

/// A ledger starts with all of its ceilings, each under its own name.
pub proof fn a_ledger_starts_with_its_ceilings(
    ceilings: (u64, u64, u64, u64),
    ledger: SpendLedger,
    remaining: (u64, u64, u64, u64),
)
    requires
        call_ensures(SpendLedger::new, ceilings, ledger),
        call_ensures(SpendLedger::remaining_results, (&ledger,), remaining.0),
        call_ensures(SpendLedger::remaining_bytes, (&ledger,), remaining.1),
        call_ensures(SpendLedger::remaining_scan, (&ledger,), remaining.2),
        call_ensures(SpendLedger::remaining_aggregation_memory, (&ledger,), remaining.3),
    ensures
        remaining == ceilings,
{
}

/// The magnitude of a ceiling or a spend: bytes where bytes are counted, and units
/// where records are.
pub open spec fn measures(magnitude: Magnitude, dimension: Dimension, amount: u64) -> bool {
    match dimension {
        Dimension::Results => magnitude == Magnitude::Units(amount),
        Dimension::Scan => magnitude == Magnitude::Units(amount),
        Dimension::Bytes => magnitude == Magnitude::Bytes(amount),
        Dimension::AggregationMemory => magnitude == Magnitude::Bytes(amount),
        Dimension::Deadline => true,
    }
}

/// What fits is granted whole. Of what does not, all that is left is granted, and
/// the refusal of the rest names the dimension, its limit, and that limit as what
/// was spent.
pub proof fn what_fits_is_granted(allowance: AllowanceModel, dimension: Dimension, want: u64)
    ensures
        want <= allowance.remaining ==> {
            &&& allowance.grant(dimension, want) == ScanAllowance::Exact(want)
            &&& allowance.after_ask(want).remaining == allowance.remaining - want
        },
        want > allowance.remaining ==> {
            &&& allowance.grant(dimension, want) matches ScanAllowance::Partial { granted, refusal }
                && {
                &&& granted == allowance.remaining
                &&& refusal.dimension == dimension
                &&& measures(refusal.limit, dimension, allowance.limit)
                &&& measures(refusal.observed, dimension, allowance.limit)
            }
            &&& allowance.after_ask(want).remaining == 0
        },
        allowance.after_ask(want).limit == allowance.limit,
{
}

/// An aggregation is charged exactly where something is left and the charge fits;
/// otherwise the refusal names the dimension, its limit, and what was spent.
pub proof fn what_fits_is_charged(allowance: AllowanceModel, dimension: Dimension, charge: u64)
    requires
        allowance.valid(),
    ensures
        allowance.charged(dimension, charge) is Ok <==> 0 < allowance.remaining && charge
            <= allowance.remaining,
        allowance.charged(dimension, charge) is Ok ==> allowance.after_charge(charge).remaining
            == allowance.remaining - charge,
        allowance.charged(dimension, charge) matches Err(refusal) ==> {
            &&& refusal.dimension == dimension
            &&& measures(refusal.limit, dimension, allowance.limit)
            &&& measures(
                refusal.observed,
                dimension,
                (allowance.limit - allowance.remaining) as u64,
            )
            &&& allowance.after_charge(charge) == allowance
        },
{
}

}
