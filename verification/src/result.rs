//! The vocabulary that query answers speak: the fate of each part, what an
//! answer did not cover, and the page a caller pages through.

use crate::model::EntityId;
use crate::storage::AdmissionKey;
use std::time::Duration;
use vstd::prelude::*;

verus! {

/// The five budget dimensions that every query is admitted with.
#[derive(Clone, Copy, Debug, PartialEq, Eq)]
pub enum Dimension {
    /// Monotonic time from admission on.
    Deadline,
    /// Entities returned.
    Results,
    /// Evidence bytes of the answer.
    Bytes,
    /// Entities examined.
    Scan,
    /// Memory an aggregation may hold.
    AggregationMemory,
}

/// The magnitude in which a dimension states its limit and its spend.
#[derive(Clone, Copy, Debug, PartialEq, Eq)]
pub enum Magnitude {
    /// Time: the deadline.
    Duration(Duration),
    /// A count: results, or entities examined.
    Units(u64),
    /// A count of bytes: evidence, or aggregation memory.
    Bytes(u64),
}

/// A refusal: which dimension expired, what its limit was, and what had been
/// spent when it did.
#[derive(Clone, Copy, Debug, PartialEq, Eq)]
pub struct BudgetRefusal {
    /// The dimension that expired.
    pub dimension: Dimension,
    /// The ceiling the caller set.
    pub limit: Magnitude,
    /// The spend when the dimension expired.
    pub observed: Magnitude,
}

/// Where a truncated part stopped.
#[derive(Clone, Debug, PartialEq, Eq)]
pub enum TruncationPoint {
    /// The opaque cursor that continues the answer.
    Cursor(Vec<u8>),
    /// The last entity examined, where there is no continuation to offer.
    LastExamined(EntityId),
}

/// A truncation: which dimension expired, where the answer stopped, and how
/// much the position leaves out.
#[derive(Clone, Debug, PartialEq, Eq)]
pub struct Truncation {
    /// The dimension that expired.
    pub dimension: Dimension,
    /// Where the part stopped.
    pub position: TruncationPoint,
    /// How many entities the position is known to leave out. Zero means
    /// uncounted, not none.
    pub omitted: u64,
}

/// The fate of one part of an answer.
#[derive(Clone, Debug, PartialEq, Eq)]
pub enum PartOutcome {
    /// The part was answered in full.
    Complete,
    /// The part answered a true subset.
    Degraded {
        /// Where and why it was cut.
        truncation: Truncation,
    },
    /// The part was refused.
    Refused(BudgetRefusal),
    /// The store claimed successors that it never yielded.
    Stalled,
}

/// What an answer did and did not cover.
#[derive(Clone, Debug, PartialEq, Eq)]
pub struct Coverage {
    /// The named gaps and boundaries.
    pub entries: Vec<CoverageEntry>,
}

/// One named fact about what an answer did not cover.
#[derive(Clone, Copy, Debug, PartialEq, Eq)]
pub enum CoverageEntry {
    /// The record that a continuation's cursor points into is gone.
    EvictionGap {
        /// The cursor's entity.
        after: EntityId,
        /// The first resident successor, or the snapshot boundary's entity.
        before: EntityId,
    },
    /// The continuation ends at the position its first page fixed.
    SnapshotBoundary {
        /// The last position inside the snapshot.
        admission: AdmissionKey,
    },
    /// A count of omissions was itself cut.
    UncountedTail {
        /// The last record that was examined; nothing behind it was counted.
        after: EntityId,
        /// The dimension whose expiry cut the count.
        dimension: Dimension,
    },
    /// The store stopped yielding while claiming successors.
    DriverStall {
        /// The last record examined, or the store's own position.
        after: EntityId,
    },
}

/// What the work did and what it covered.
#[derive(Clone, Debug, PartialEq, Eq)]
pub struct Execution {
    /// One outcome per part.
    pub parts: Vec<PartOutcome>,
    /// The coverage of the whole answer.
    pub coverage: Coverage,
}

/// One page of a query's answer.
#[derive(Clone, Debug, PartialEq, Eq)]
pub struct Page<T> {
    /// The records, in the total order.
    pub items: Vec<T>,
    /// The opaque continuation, when there is more of the same snapshot.
    pub next_cursor: Option<Vec<u8>>,
    /// What the work did and covered.
    pub execution: Execution,
}

/// The mathematical reading of [`TruncationPoint`].
pub ghost enum PointModel {
    /// The bytes of a continuation.
    Cursor(Seq<u8>),
    /// The last entity examined.
    LastExamined(EntityId),
}

/// The mathematical reading of [`PartOutcome`].
pub ghost enum PartModel {
    /// Answered in full.
    Complete,
    /// Cut: the dimension, the position, and the known omissions.
    Degraded {
        /// The dimension that expired.
        dimension: Dimension,
        /// Where the part stopped.
        position: PointModel,
        /// The known omissions.
        omitted: u64,
    },
    /// Refused.
    Refused(BudgetRefusal),
    /// The store stalled.
    Stalled,
}

/// The mathematical reading of [`Page`].
pub ghost struct PageModel<T> {
    /// The records.
    pub items: Seq<T>,
    /// The continuation's bytes.
    pub next_cursor: Option<Seq<u8>>,
    /// The outcomes.
    pub parts: Seq<PartModel>,
    /// The coverage entries.
    pub coverage: Seq<CoverageEntry>,
}

impl View for TruncationPoint {
    type V = PointModel;

    open spec fn view(&self) -> PointModel {
        match self {
            TruncationPoint::Cursor(bytes) => PointModel::Cursor(bytes@),
            TruncationPoint::LastExamined(entity) => PointModel::LastExamined(*entity),
        }
    }
}

impl View for PartOutcome {
    type V = PartModel;

    open spec fn view(&self) -> PartModel {
        match self {
            PartOutcome::Complete => PartModel::Complete,
            PartOutcome::Degraded { truncation } => PartModel::Degraded {
                dimension: truncation.dimension,
                position: truncation.position@,
                omitted: truncation.omitted,
            },
            PartOutcome::Refused(refusal) => PartModel::Refused(*refusal),
            PartOutcome::Stalled => PartModel::Stalled,
        }
    }
}

impl<T> View for Page<T> {
    type V = PageModel<T>;

    open spec fn view(&self) -> PageModel<T> {
        PageModel {
            items: self.items@,
            next_cursor: match self.next_cursor {
                Some(bytes) => Some(bytes@),
                None => None,
            },
            parts: self.execution.parts@.map_values(|part: PartOutcome| part@),
            coverage: self.execution.coverage.entries@,
        }
    }
}

/// What is said of a page is said of what it holds: its records, its
/// continuation, the fate of its parts, and what it does not cover.
pub proof fn a_page_is_what_it_holds<T>(page: Page<T>, index: int)
    ensures
        page@.items == page.items@,
        match page.next_cursor {
            Some(bytes) => page@.next_cursor == Some(bytes@),
            None => page@.next_cursor is None,
        },
        page@.coverage == page.execution.coverage.entries@,
        page@.parts.len() == page.execution.parts@.len(),
        0 <= index < page.execution.parts@.len() ==> match page.execution.parts@[index] {
            PartOutcome::Complete => page@.parts[index] == PartModel::Complete,
            PartOutcome::Degraded { truncation } => page@.parts[index] == (PartModel::Degraded {
                dimension: truncation.dimension,
                position: match truncation.position {
                    TruncationPoint::Cursor(bytes) => PointModel::Cursor(bytes@),
                    TruncationPoint::LastExamined(entity) => PointModel::LastExamined(entity),
                },
                omitted: truncation.omitted,
            }),
            PartOutcome::Refused(refusal) => page@.parts[index] == PartModel::Refused(refusal),
            PartOutcome::Stalled => page@.parts[index] == PartModel::Stalled,
        },
{
}

}
