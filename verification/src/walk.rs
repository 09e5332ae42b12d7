//! What a walk over a store does, record by record.
//!
//! A walk answers one page. It pulls batches from the store and judges their
//! records in the order in which they come; each judgement follows from what
//! the walk has accumulated, from the record, and from the readings of the
//! clock that it took on the way. The store and the clock may say anything:
//! a page is the outcome of what they said.

use crate::budget::SessionModel;
use crate::cursor::CursorModel;
use crate::engine::{RecordView, SignalKind, EMPTY_PAGE_STALL_LIMIT, SCAN_BATCH};
use crate::filters::FilterModel;
use crate::model::EntityId;
use crate::result::{BudgetRefusal, CoverageEntry, Dimension, PageModel, PartModel, PointModel};
use crate::spend::ScanAllowance;
use crate::storage::{AdmissionKey, TelemetryStore, Yielded};
use crate::{filters, order};
use std::time::Instant;
use vstd::prelude::*;

verus! {

/// The readings of the clock that judging one record takes: when it is charged
/// for examination, and when it is to be returned. A record that does not come so
/// far takes no such reading.
pub ghost struct Readings {
    /// The reading of the scan charge.
    pub scan: Instant,
    /// The reading of the results and bytes charges, which a record that does not
    /// fit is spared.
    pub returned: Instant,
}

/// What one batch of a walk was answered: the records and the cursor that the
/// store gave, and the readings that the clock gave for each record.
pub ghost struct Pull {
    /// The store's records.
    pub records: Seq<Yielded>,
    /// The store's cursor.
    pub cursor: Option<AdmissionKey>,
    /// The clock's readings, one for each record.
    pub readings: Seq<Readings>,
}

/// The selected records that were examined since the first that did not fit the
/// byte ceiling.
#[derive(Clone, Copy, Debug, PartialEq, Eq)]
pub struct Counting {
    /// How many of them do not fit.
    pub omitted: u64,
    /// The last that does not fit.
    pub last: EntityId,
    /// How many there are.
    pub seen: u64,
    /// The position of the last of them.
    pub last_seen: AdmissionKey,
}

/// What a walk makes of one record.
pub ghost enum Verdict {
    /// It lies past the snapshot boundary.
    PastSnapshot,
    /// Its examination was refused.
    ScanRefused(BudgetRefusal),
    /// It was examined, and the filters leave it out.
    LeftOut,
    /// It was examined after the byte ceiling was met, and would not fit.
    Counted,
    /// It was examined after the byte ceiling was met, and would fit.
    Passed,
    /// It was examined, and no more results may be returned.
    ResultsSpent,
    /// It was examined, and its return was refused.
    IncludeRefused(BudgetRefusal),
    /// It was examined, and is the first that does not fit the byte ceiling.
    OpensCount,
    /// It is returned.
    Included,
}

/// The evidence bytes of a record: a metric point's stream is shared by all
/// its points and counts for none.
pub open spec fn evidence(record: RecordView) -> u64 {
    match record {
        RecordView::Span(span) => span.accounted_size as u64,
        RecordView::LogRecord(log) => log.accounted_size as u64,
        RecordView::MetricPoint { point, .. } => point.evidence() as u64,
    }
}

/// Whether a record is of a kind.
pub open spec fn of_kind(kind: SignalKind, record: RecordView) -> bool {
    match kind {
        SignalKind::Spans => record is Span,
        SignalKind::LogRecords => record is LogRecord,
        SignalKind::MetricPoints => record is MetricPoint,
    }
}

/// Whether every record of a batch is of a kind.
pub open spec fn all_of_kind(kind: SignalKind, records: Seq<Yielded>) -> bool {
    forall|i: int| 0 <= i < records.len() ==> of_kind(kind, (#[trigger] records[i]).record)
}

/// A walk between two records.
pub ghost struct WalkModel {
    /// The kind it walks.
    pub kind: SignalKind,
    /// The records it selects.
    pub filters: FilterModel,
    /// The fingerprint of its query.
    pub fingerprint: u64,
    /// The cursor that it continues.
    pub presented: Option<CursorModel>,
    /// What is left of its budget.
    pub session: SessionModel,
    /// What it has returned.
    pub items: Seq<RecordView>,
    /// What it has not covered.
    pub coverage: Seq<CoverageEntry>,
    /// Where its next batch starts.
    pub after: Option<AdmissionKey>,
    /// Where its last batch ended.
    pub frontier: Option<AdmissionKey>,
    /// The position of the last record returned.
    pub last_included: Option<AdmissionKey>,
    /// The position of the last record examined.
    pub last_examined: Option<AdmissionKey>,
    /// The count of records that did not fit.
    pub counting: Option<Counting>,
    /// The entity of the presented cursor, while it is gone and no successor
    /// has been seen.
    pub pending_gap: Option<EntityId>,
    /// How many batches in a row were empty.
    pub empty_pulls: nat,
    /// The walk's outcome, once it has one.
    pub stopped: Option<PartModel>,
}

impl WalkModel {
    /// The walk of a query that continues `presented`, whose entity is
    /// resident or not.
    pub open spec fn start(
        kind: SignalKind,
        filters: FilterModel,
        fingerprint: u64,
        session: SessionModel,
        presented: Option<CursorModel>,
        resident: bool,
    ) -> WalkModel {
        WalkModel {
            kind,
            filters,
            fingerprint,
            presented,
            session,
            items: Seq::empty(),
            coverage: match presented {
                Some(cursor) => seq![CoverageEntry::SnapshotBoundary { admission: cursor.snapshot }],
                None => Seq::empty(),
            },
            after: match presented {
                Some(cursor) => Some(AdmissionKey::at(cursor.position, cursor.last_entity)),
                None => None,
            },
            frontier: None,
            last_included: None,
            last_examined: None,
            counting: None,
            pending_gap: match presented {
                Some(cursor) => if resident {
                    None
                } else {
                    Some(cursor.last_entity)
                },
                None => None,
            },
            empty_pulls: 0,
            stopped: None,
        }
    }

    /// Whether the count of records can go on: every counted record was
    /// examined, so there are no more of them than the scan ceiling allowed.
    pub open spec fn countable(self) -> bool {
        self.counting matches Some(counting) ==> counting.omitted <= counting.seen && counting.seen
            + self.session.ledger.scan.remaining <= self.session.ledger.scan.limit
    }

    /// The last position inside the snapshot that the walk continues.
    pub open spec fn bound(self) -> Option<AdmissionKey> {
        match self.presented {
            Some(cursor) => Some(cursor.snapshot),
            None => None,
        }
    }

    /// The snapshot of a cursor minted at `anchor`: the presented cursor's,
    /// or else where the last batch ended.
    pub open spec fn snapshot(self, anchor: AdmissionKey) -> AdmissionKey {
        match self.bound() {
            Some(bound) => bound,
            None => match self.frontier {
                Some(frontier) => frontier,
                None => anchor,
            },
        }
    }

    /// The cursor minted at `anchor`.
    pub open spec fn cursor_at(self, anchor: AdmissionKey) -> CursorModel {
        CursorModel {
            position: anchor.nanos(),
            last_entity: anchor.entity_id(),
            fingerprint: self.fingerprint,
            snapshot: self.snapshot(anchor),
        }
    }

    /// The cut that leaves everything after the last returned record to a
    /// continuation. Where nothing was returned, the continuation is the
    /// presented one; where there is none either, the cut names the last
    /// record examined. A count of omissions that ran to its end cuts so too; one
    /// that was itself cut moves on, as [`WalkModel::cut_short`] says.
    pub open spec fn cut(self, dimension: Dimension, omitted: u64, last: EntityId) -> PartModel {
        PartModel::Degraded {
            dimension,
            position: match self.last_included {
                Some(anchor) => PointModel::Cursor(self.cursor_at(anchor).encoding()),
                None => match self.presented {
                    Some(cursor) => PointModel::Cursor(cursor.encoding()),
                    None => PointModel::LastExamined(last),
                },
            },
            omitted,
        }
    }

    /// The cut of a count that was itself cut short: every selected record that
    /// the walk saw since the byte ceiling was met is omitted, fitting or not,
    /// and the continuation starts behind the last of them, so that a chain of
    /// pages gets past every wall.
    ///
    /// A page that returned something and saw no more than the record at the
    /// wall leaves that record to the continuation: the chain has moved on
    /// already, and the record may fit the next page, whose ceiling is whole
    /// again. A count that was not cut short is another matter: see
    /// [`WalkModel::finished`].
    pub open spec fn cut_short(self, counting: Counting) -> PartModel {
        if counting.seen == 1 && self.last_included is Some {
            self.cut(Dimension::Bytes, counting.seen, counting.last)
        } else {
            PartModel::Degraded {
                dimension: Dimension::Bytes,
                position: PointModel::Cursor(self.cursor_at(counting.last_seen).encoding()),
                omitted: counting.seen,
            }
        }
    }

    /// The walk, stopped with this outcome.
    pub open spec fn stop(self, outcome: PartModel) -> WalkModel {
        WalkModel { stopped: Some(outcome), ..self }
    }

    /// The walk, having given up `unexamined` records that were pulled.
    pub open spec fn settled(self, unexamined: int) -> WalkModel {
        WalkModel { session: self.session.after_settling(unexamined as u64), ..self }
    }

    /// The walk at the end of what there is to see: complete, unless records
    /// that did not fit were counted. Those are omitted, and nothing lies behind
    /// them; the continuation starts after the last returned record, so that on a
    /// larger ceiling it returns them.
    pub open spec fn finished(self) -> WalkModel {
        match self.counting {
            Some(counting) => WalkModel { counting: None, ..self }.stop(
                self.cut(Dimension::Bytes, counting.omitted, counting.last),
            ),
            None => self.stop(PartModel::Complete),
        }
    }

    /// The walk, stopped before a record whose examination was refused. A
    /// count of records is then cut short, and the last record examined is
    /// named, behind which nothing was counted; otherwise the continuation
    /// starts after the last record examined, and a walk that examined nothing
    /// is refused.
    pub open spec fn cut_before_examining(self, refusal: BudgetRefusal) -> WalkModel {
        match (self.counting, self.last_examined) {
            (Some(counting), _) => WalkModel {
                counting: None,
                coverage: self.coverage.push(
                    CoverageEntry::UncountedTail {
                        after: match self.last_examined {
                            Some(key) => key.entity_id(),
                            None => counting.last,
                        },
                        dimension: refusal.dimension,
                    },
                ),
                ..self
            }.stop(self.cut_short(counting)),
            (None, Some(anchor)) => self.stop(
                PartModel::Degraded {
                    dimension: refusal.dimension,
                    position: PointModel::Cursor(self.cursor_at(anchor).encoding()),
                    omitted: 0,
                },
            ),
            (None, None) => self.stop(PartModel::Refused(refusal)),
        }
    }

    /// What the walk makes of a record.
    pub open spec fn verdict(self, yielded: Yielded, readings: Readings) -> Verdict {
        if self.bound() matches Some(bound) && order::key_precedes(bound, yielded.key) {
            Verdict::PastSnapshot
        } else if let ScanAllowance::Partial { refusal, .. } = self.session.granted_scan(
            readings.scan,
            1,
        ) {
            Verdict::ScanRefused(refusal)
        } else if !filters::selected(self.kind, self.filters, yielded.record) {
            Verdict::LeftOut
        } else if self.counting is Some {
            if self.session.ledger.bytes.remaining < evidence(yielded.record) {
                Verdict::Counted
            } else {
                Verdict::Passed
            }
        } else if self.session.ledger.results.remaining == 0 {
            Verdict::ResultsSpent
        } else if let ScanAllowance::Partial { refusal, .. } = self.session.granted_results(
            readings.returned,
            1,
        ) {
            Verdict::IncludeRefused(refusal)
        } else if self.session.ledger.bytes.remaining < evidence(yielded.record) {
            Verdict::OpensCount
        } else {
            Verdict::Included
        }
    }

    /// The walk, having examined a record: it is charged for, and it closes a
    /// gap that was waiting for a successor.
    pub open spec fn examined(self, key: AdmissionKey, at: Instant) -> WalkModel {
        WalkModel {
            session: self.session.after_scan(at, 1),
            last_examined: Some(key),
            coverage: match self.pending_gap {
                Some(after) => self.coverage.push(
                    CoverageEntry::EvictionGap { after, before: key.entity_id() },
                ),
                None => self.coverage,
            },
            pending_gap: None,
            ..self
        }
    }

    /// The walk, having been charged for returning one more record.
    pub open spec fn result_charged(self, at: Instant) -> WalkModel {
        WalkModel { session: self.session.after_results(at, 1), ..self }
    }

    /// The walk, having been charged for a record's evidence.
    pub open spec fn bytes_charged(self, at: Instant, want: u64) -> WalkModel {
        WalkModel { session: self.session.after_bytes(at, want), ..self }
    }

    /// The walk after a record, behind which its batch holds `behind` more.
    #[verifier::opaque]
    pub open spec fn judged(self, yielded: Yielded, behind: int, readings: Readings) -> WalkModel {
        let entity = yielded.key.entity_id();
        let examined = self.examined(yielded.key, readings.scan);
        match self.verdict(yielded, readings) {
            Verdict::PastSnapshot => self.settled(behind + 1).finished(),
            Verdict::ScanRefused(refusal) => WalkModel {
                session: self.session.after_scan(readings.scan, 1),
                ..self
            }.settled(behind + 1).cut_before_examining(refusal),
            Verdict::LeftOut => examined,
            Verdict::Passed => WalkModel {
                counting: match self.counting {
                    Some(counting) => Some(
                        Counting {
                            seen: (counting.seen + 1) as u64,
                            last_seen: yielded.key,
                            ..counting
                        },
                    ),
                    None => None,
                },
                ..examined
            },
            Verdict::Counted => WalkModel {
                counting: match self.counting {
                    Some(counting) => Some(
                        Counting {
                            omitted: (counting.omitted + 1) as u64,
                            last: entity,
                            seen: (counting.seen + 1) as u64,
                            last_seen: yielded.key,
                        },
                    ),
                    None => None,
                },
                ..examined
            },
            Verdict::ResultsSpent => examined.settled(behind).stop(
                examined.cut(Dimension::Results, 0, entity),
            ),
            Verdict::OpensCount => WalkModel {
                counting: Some(
                    Counting { omitted: 1, last: entity, seen: 1, last_seen: yielded.key },
                ),
                ..examined
            },
            Verdict::IncludeRefused(refusal) => examined.settled(behind).stop(
                examined.cut(refusal.dimension, 0, entity),
            ),
            Verdict::Included => WalkModel {
                items: self.items.push(yielded.record),
                last_included: Some(yielded.key),
                ..examined.result_charged(readings.returned).bytes_charged(
                    readings.returned,
                    evidence(yielded.record),
                )
            },
        }
    }

    /// The walk after the first `count` records of a batch, or after the one
    /// of them that stopped it.
    pub open spec fn judged_batch(self, pull: Pull, count: nat) -> WalkModel
        decreases count,
    {
        if count == 0 {
            self
        } else {
            let before = self.judged_batch(pull, (count - 1) as nat);
            if before.stopped is Some {
                before
            } else {
                before.judged(
                    pull.records[count - 1],
                    pull.records.len() - count,
                    pull.readings[count - 1],
                )
            }
        }
    }

    /// The walk, having pulled a batch and not yet judged its records.
    pub open spec fn pulled(self, pull: Pull) -> WalkModel {
        WalkModel {
            frontier: match pull.cursor {
                Some(cursor) => Some(cursor),
                None => if pull.records.len() > 0 {
                    Some(pull.records.last().key)
                } else {
                    None
                },
            },
            empty_pulls: if pull.records.len() == 0 && pull.cursor is Some {
                self.empty_pulls + 1
            } else {
                0
            },
            ..self
        }
    }

    /// The walk after a batch. A batch without a successor ends it. So does a
    /// run of empty batches that each claim one: the walk names the stall, by
    /// the last record examined or else by the store's own cursor.
    pub open spec fn after_pull(self, pull: Pull) -> WalkModel {
        let judged = self.pulled(pull).judged_batch(pull, pull.records.len());
        if judged.stopped is Some {
            judged
        } else {
            match pull.cursor {
                Some(cursor) => if judged.empty_pulls >= EMPTY_PAGE_STALL_LIMIT {
                    WalkModel {
                        coverage: judged.coverage.push(
                            CoverageEntry::DriverStall {
                                after: match judged.last_examined {
                                    Some(key) => key.entity_id(),
                                    None => cursor.entity_id(),
                                },
                            },
                        ),
                        ..judged
                    }.stop(PartModel::Stalled)
                } else {
                    WalkModel { after: Some(cursor), ..judged }
                },
                None => judged.finished(),
            }
        }
    }

    /// The walk after a sequence of batches.
    pub open spec fn walked(self, pulls: Seq<Pull>) -> WalkModel
        decreases pulls.len(),
    {
        if pulls.len() == 0 {
            self
        } else {
            self.walked(pulls.drop_last()).after_pull(pulls.last())
        }
    }

    /// Whether the walk may go through these batches to its outcome: each is
    /// one that the store may answer where the walk then stands, holds records of
    /// the walk's kind and comes with its readings, and the walk stops with the last.
    pub open spec fn may_walk<S: TelemetryStore + ?Sized>(
        self,
        store: &S,
        pulls: Seq<Pull>,
    ) -> bool {
        &&& self.walked(pulls).stopped is Some
        &&& forall|i: int| 0 <= i < pulls.len() ==> #[trigger] self.may_pull(
            store,
            pulls,
            i,
        )
    }

    /// Whether the batch with this index is one that the walk may pull next
    /// after those before it.
    pub open spec fn may_pull<S: TelemetryStore + ?Sized>(
        self,
        store: &S,
        pulls: Seq<Pull>,
        index: int,
    ) -> bool {
        &&& self.walked(pulls.take(index)).stopped is None
        &&& pulls[index].readings.len() == pulls[index].records.len()
        &&& all_of_kind(self.kind, pulls[index].records)
        &&& store.may_scan(
            self.kind,
            self.walked(pulls.take(index)).after,
            SCAN_BATCH,
            pulls[index].records,
            pulls[index].cursor,
        )
    }

    /// The page of a walk that has stopped. A gap that met no successor ends
    /// at the snapshot boundary.
    pub open spec fn page(self) -> PageModel<RecordView> {
        PageModel {
            items: self.items,
            next_cursor: match self.stopped {
                Some(PartModel::Degraded { position: PointModel::Cursor(bytes), .. }) => Some(
                    bytes,
                ),
                _ => None,
            },
            parts: match self.stopped {
                Some(outcome) => seq![outcome],
                None => seq![PartModel::Complete],
            },
            coverage: match self.pending_gap {
                Some(after) => self.coverage.push(
                    CoverageEntry::EvictionGap {
                        after,
                        before: match self.bound() {
                            Some(bound) => bound.entity_id(),
                            None => after,
                        },
                    },
                ),
                None => self.coverage,
            },
        }
    }
}

/// What a walk makes of the first records of a batch depends on those records
/// and their readings alone.
pub proof fn judged_batch_reads_ahead_of_nothing(walk: WalkModel, a: Pull, b: Pull, count: nat)
    requires
        a.records == b.records,
        forall|i: int| 0 <= i < count ==> a.readings[i] == b.readings[i],
    ensures
        walk.judged_batch(a, count) == walk.judged_batch(b, count),
    decreases count,
{
    if count > 0 {
        judged_batch_reads_ahead_of_nothing(walk, a, b, (count - 1) as nat);
    }
}

/// A walk that a record stopped makes nothing of the records behind it.
pub proof fn judged_batch_stays_stopped(walk: WalkModel, pull: Pull, count: nat, more: nat)
    requires
        walk.judged_batch(pull, count).stopped is Some,
        count <= more,
    ensures
        walk.judged_batch(pull, more) == walk.judged_batch(pull, count),
    decreases more,
{
    if count < more {
        judged_batch_stays_stopped(walk, pull, count, (more - 1) as nat);
    }
}

/// Every record that a walk judges without stopping costs one examination.
pub proof fn a_judged_batch_is_charged_for(walk: WalkModel, pull: Pull, count: nat)
    requires
        count <= pull.records.len(),
    ensures
        ({
            let after = walk.judged_batch(pull, count);
            &&& after.session.ledger.scan.remaining <= walk.session.ledger.scan.remaining
            &&& after.empty_pulls == walk.empty_pulls
            &&& after.stopped is None ==> after.session.ledger.scan.remaining
                == walk.session.ledger.scan.remaining - count
        }),
    decreases count,
{
    reveal(WalkModel::judged);
    if count > 0 {
        a_judged_batch_is_charged_for(walk, pull, (count - 1) as nat);
    }
}

/// A walk that goes on through one more batch may pull that batch.
pub proof fn pulls_extend<S: TelemetryStore + ?Sized>(
    walk: WalkModel,
    store: &S,
    pulls: Seq<Pull>,
    pull: Pull,
)
    requires
        walk.walked(pulls).stopped is None,
        pull.readings.len() == pull.records.len(),
        all_of_kind(walk.kind, pull.records),
        store.may_scan(walk.kind, walk.walked(pulls).after, SCAN_BATCH, pull.records, pull.cursor),
        forall|i: int| 0 <= i < pulls.len() ==> #[trigger] walk.may_pull(store, pulls, i),
    ensures
        walk.walked(pulls.push(pull)) == walk.walked(pulls).after_pull(pull),
        forall|i: int|
            0 <= i < pulls.push(pull).len() ==> #[trigger] walk.may_pull(
                store,
                pulls.push(pull),
                i,
            ),
{
    let longer = pulls.push(pull);
    assert(longer.drop_last() =~= pulls);
    assert forall|i: int| 0 <= i < longer.len() implies #[trigger] walk.may_pull(
        store,
        longer,
        i,
    ) by {
        if i < pulls.len() {
            assert(walk.may_pull(store, pulls, i));
            assert(longer.take(i) =~= pulls.take(i));
        } else {
            assert(longer.take(i) =~= pulls);
        }
    }
}

/// What is left of a ceiling once so much is charged, as far as it goes.
pub open spec fn left_of(remaining: int, charged: int) -> int {
    if charged <= remaining {
        remaining - charged
    } else {
        0
    }
}

/// What becomes of a record, by the numbers. One past the snapshot ends the walk.
/// One that the deadline or the scan ceiling refuses is not examined. Any other is
/// examined, for one of the scan ceiling, and then: what is not selected changes
/// nothing; behind the byte ceiling it is counted, as fitting or not; where no
/// result is left, or the deadline has passed meanwhile, it ends the walk; where
/// it does not fit what is left of the byte ceiling, it opens the count; and
/// otherwise it is returned, for one result and its evidence. A record that ends
/// the walk is charged for with those behind it that were pulled, as far as the
/// scan ceiling goes.
pub proof fn what_becomes_of_a_record(
    walk: WalkModel,
    yielded: Yielded,
    behind: int,
    readings: Readings,
)
    requires
        walk.stopped is None,
        walk.countable(),
        0 <= behind < u64::MAX,
    ensures
        ({
            let after = walk.judged(yielded, behind, readings);
            let scan = walk.session.ledger.scan.remaining;
            let results = walk.session.ledger.results.remaining;
            let bytes = walk.session.ledger.bytes.remaining;
            let size = evidence(yielded.record);
            let entity = yielded.key.entity_id();
            if walk.presented is Some && order::key_precedes(
                walk.presented->Some_0.snapshot,
                yielded.key,
            ) {
                &&& after.stopped is Some
                &&& after.items == walk.items
                &&& after.last_examined == walk.last_examined
                &&& after.coverage == walk.coverage
                &&& after.session.ledger.scan.remaining == left_of(scan as int, behind + 1)
                &&& walk.counting is None ==> after.stopped == Some(PartModel::Complete)
            } else if walk.session.expired(readings.scan) || scan == 0 {
                &&& after.stopped is Some
                &&& after.items == walk.items
                &&& after.last_examined == walk.last_examined
                &&& walk.counting is None && walk.last_examined is None ==> (after.stopped matches Some(
                    PartModel::Refused(refusal),
                ) && refusal.dimension == if walk.session.expired(readings.scan) {
                    Dimension::Deadline
                } else {
                    Dimension::Scan
                })
                &&& walk.counting is None && walk.last_examined is Some ==> (after.stopped matches Some(
                    PartModel::Degraded { dimension, position, omitted },
                ) && omitted == 0 && position == PointModel::Cursor(
                    walk.cursor_at(walk.last_examined->Some_0).encoding(),
                ) && dimension == if walk.session.expired(readings.scan) {
                    Dimension::Deadline
                } else {
                    Dimension::Scan
                })
                &&& after.session.ledger.scan.remaining == left_of(scan as int, behind + 1)
                &&& walk.counting is None ==> after.coverage == walk.coverage
                &&& walk.counting matches Some(counting) ==> {
                    &&& after.stopped matches Some(
                        PartModel::Degraded { dimension, position, omitted },
                    ) && {
                        &&& dimension == Dimension::Bytes
                        &&& omitted == counting.seen
                        &&& position == PointModel::Cursor(
                            walk.cursor_at(
                                if counting.seen == 1 && walk.last_included is Some {
                                    walk.last_included->Some_0
                                } else {
                                    counting.last_seen
                                },
                            ).encoding(),
                        )
                    }
                    &&& walk.last_examined matches Some(key) ==> after.coverage
                        == walk.coverage.push(
                        CoverageEntry::UncountedTail {
                            after: key.entity_id(),
                            dimension: if walk.session.expired(readings.scan) {
                                Dimension::Deadline
                            } else {
                                Dimension::Scan
                            },
                        },
                    )
                }
            } else {
                &&& after.last_examined == Some(yielded.key)
                &&& after.stopped is None ==> after.session.ledger.scan.remaining == scan - 1
                &&& walk.pending_gap matches Some(gone) ==> after.pending_gap is None
                    && after.coverage == walk.coverage.push(
                    CoverageEntry::EvictionGap { after: gone, before: entity },
                )
                &&& walk.pending_gap is None ==> after.coverage == walk.coverage
                &&& if !filters::selected(walk.kind, walk.filters, yielded.record) {
                    &&& after.items == walk.items
                    &&& after.counting == walk.counting
                    &&& after.stopped is None
                    &&& after.session.ledger.results.remaining == results
                    &&& after.session.ledger.bytes.remaining == bytes
                } else if walk.counting is Some {
                    &&& after.items == walk.items
                    &&& after.stopped is None
                    &&& after.session.ledger.results.remaining == results
                    &&& after.session.ledger.bytes.remaining == bytes
                    &&& after.counting matches Some(counting) && {
                        &&& counting.seen == walk.counting->Some_0.seen + 1
                        &&& counting.last_seen == yielded.key
                        &&& if size > bytes {
                            counting.omitted == walk.counting->Some_0.omitted + 1 && counting.last
                                == entity
                        } else {
                            counting.omitted == walk.counting->Some_0.omitted && counting.last
                                == walk.counting->Some_0.last
                        }
                    }
                } else if results == 0 || walk.session.expired(readings.returned) {
                    &&& after.items == walk.items
                    &&& after.session.ledger.results.remaining == results
                    &&& after.session.ledger.bytes.remaining == bytes
                    &&& after.session.ledger.scan.remaining == left_of(scan - 1, behind)
                    &&& after.stopped matches Some(
                        PartModel::Degraded { dimension, position, omitted },
                    ) && {
                        &&& omitted == 0
                        &&& dimension == if results == 0 {
                            Dimension::Results
                        } else {
                            Dimension::Deadline
                        }
                        &&& position == match (walk.last_included, walk.presented) {
                            (Some(anchor), _) => PointModel::Cursor(
                                walk.cursor_at(anchor).encoding(),
                            ),
                            (None, Some(cursor)) => PointModel::Cursor(cursor.encoding()),
                            (None, None) => PointModel::LastExamined(entity),
                        }
                    }
                } else if size > bytes {
                    &&& after.items == walk.items
                    &&& after.stopped is None
                    &&& after.session.ledger.results.remaining == results
                    &&& after.session.ledger.bytes.remaining == bytes
                    &&& after.counting == Some(
                        Counting { omitted: 1, last: entity, seen: 1, last_seen: yielded.key },
                    )
                } else {
                    &&& after.items == walk.items.push(yielded.record)
                    &&& after.last_included == Some(yielded.key)
                    &&& after.stopped is None
                    &&& after.counting is None
                    &&& after.session.ledger.results.remaining == results - 1
                    &&& after.session.ledger.bytes.remaining == bytes - size
                }
            }
        }),
{
    reveal(WalkModel::judged);
    let examined = walk.examined(yielded.key, readings.scan);
    assert(examined.session.expired(readings.returned) == walk.session.expired(readings.returned));
    let charged = examined.result_charged(readings.returned);
    assert(charged.session.expired(readings.returned) == walk.session.expired(readings.returned));
}

/// A cursor that a walk mints says where it is anchored and whose query it
/// continues. Its snapshot is that of the cursor that the walk continues, and on a
/// first page the end of the last batch.
pub proof fn a_minted_cursor_says_where_it_is_anchored(walk: WalkModel, anchor: AdmissionKey)
    ensures
        walk.cursor_at(anchor).position == anchor.nanos(),
        walk.cursor_at(anchor).last_entity == anchor.entity_id(),
        walk.cursor_at(anchor).fingerprint == walk.fingerprint,
        walk.presented matches Some(cursor) ==> walk.cursor_at(anchor).snapshot
            == cursor.snapshot,
        walk.presented is None && walk.frontier is Some ==> Some(walk.cursor_at(anchor).snapshot)
            == walk.frontier,
{
}

/// Three empty batches in a row that each claim a successor stall a walk, and no
/// fewer do: the stall is named by the last record examined, or failing that by
/// where the store says that it goes on.
pub proof fn three_empty_batches_in_a_row_stall(walk: WalkModel, a: Pull, b: Pull, c: Pull)
    requires
        walk.stopped is None,
        walk.empty_pulls == 0,
        a.records.len() == 0,
        b.records.len() == 0,
        c.records.len() == 0,
        a.cursor is Some,
        b.cursor is Some,
        c.cursor is Some,
    ensures
        ({
            let first = walk.after_pull(a);
            let second = first.after_pull(b);
            let third = second.after_pull(c);
            &&& first.stopped is None
            &&& first.after == a.cursor
            &&& second.stopped is None
            &&& second.after == b.cursor
            &&& third.stopped == Some(PartModel::Stalled)
            &&& third.items == walk.items
            &&& third.coverage == walk.coverage.push(
                CoverageEntry::DriverStall {
                    after: match walk.last_examined {
                        Some(key) => key.entity_id(),
                        None => c.cursor->Some_0.entity_id(),
                    },
                },
            )
        }),
{
    assert(walk.pulled(a).judged_batch(a, 0) == walk.pulled(a));
    let first = walk.after_pull(a);
    assert(first.pulled(b).judged_batch(b, 0) == first.pulled(b));
    let second = first.after_pull(b);
    assert(second.pulled(c).judged_batch(c, 0) == second.pulled(c));
}

/// A batch with a record ends a row of empty ones; the last batch ends the walk.
pub proof fn a_batch_with_a_record_ends_a_row_of_empty_ones(walk: WalkModel, pull: Pull)
    requires
        walk.stopped is None,
        pull.records.len() > 0,
    ensures
        walk.after_pull(pull).empty_pulls == 0,
        pull.cursor is None ==> walk.after_pull(pull).stopped is Some,
        walk.after_pull(pull).stopped is None ==> walk.after_pull(pull).after == pull.cursor,
{
    a_judged_batch_is_charged_for(walk.pulled(pull), pull, pull.records.len());
}

/// A page says what its walk ended with. A gap that no record was seen behind ends
/// at the snapshot.
pub proof fn a_page_says_what_its_walk_ended_with(walk: WalkModel)
    requires
        walk.stopped is Some,
    ensures
        walk.page().items == walk.items,
        walk.page().parts.len() == 1,
        walk.page().parts[0] == walk.stopped->Some_0,
        match walk.stopped->Some_0 {
            PartModel::Degraded { position: PointModel::Cursor(bytes), .. } =>
                walk.page().next_cursor == Some(bytes),
            _ => walk.page().next_cursor is None,
        },
        walk.pending_gap is None ==> walk.page().coverage == walk.coverage,
        walk.pending_gap is Some && walk.presented is Some ==> walk.page().coverage
            == walk.coverage.push(
            CoverageEntry::EvictionGap {
                after: walk.pending_gap->Some_0,
                before: walk.presented->Some_0.snapshot.entity_id(),
            },
        ),
{
}

}
