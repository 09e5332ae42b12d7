//! Budgeted record queries over a telemetry store.
//!
//! [`records`] is the one entry: a query, a budget, and where the answer
//! continues. It answers one page, in the residency order, within the budget.
//! What a page leaves out has a name: the position where it was cut, and the
//! coverage entries.
//!
//! A first page fixes the snapshot at the end of the last batch it pulled, and
//! every later page stops there. A cursor is anchored at the last record
//! returned, so that nothing examined but not returned is lost.
//!
//! Filters decide after the scan charge and before every other gate: a record
//! that they leave out was examined and is charged for, and is otherwise as if
//! it were not there.

use crate::budget::{BudgetSession, QueryBudget};
use crate::cursor::{CursorError, CursorPayload};
use crate::filters::{LogFilters, MetricFilters, RecordsFilters, SpanFilters};
use crate::lease::SnapshotLease;
use crate::model::{AdmissionTime, EntityId, LogRecord, MetricPoint, Span, StreamIdentity};
use crate::result::{
    BudgetRefusal, Coverage, CoverageEntry, Dimension, Execution, Page, PartOutcome, Truncation,
    TruncationPoint,
};
use crate::spend::ScanAllowance;
use crate::storage::{AdmissionKey, PointView, ScanItem, TelemetryStore, Yielded};
use crate::walk::Counting;
use crate::{budget, cursor, filters, order, result, storage, walk};
use std::sync::Arc;
use std::time::Instant;
use vstd::prelude::*;

verus! {

/// The first byte of a query's description.
pub const QUERY_TAG: u8 = 0x51;

/// The version of the description.
pub const QUERY_VERSION: u8 = 2;

/// Records pulled from the store at a time.
pub const SCAN_BATCH: usize = 64;

/// How many empty batches in a row, each with a successor, end a walk.
pub const EMPTY_PAGE_STALL_LIMIT: usize = 3;

/// The signal kind that a query asks for.
#[derive(Clone, Copy, Debug, PartialEq, Eq)]
pub enum SignalKind {
    /// Spans.
    Spans,
    /// Log records.
    LogRecords,
    /// Metric points.
    MetricPoints,
}

impl SignalKind {
    /// The kind's byte in a query's description.
    pub open spec fn tag_byte(self) -> u8 {
        match self {
            SignalKind::Spans => 0,
            SignalKind::LogRecords => 1,
            SignalKind::MetricPoints => 2,
        }
    }

    fn tag(self) -> (tag: u8)
        ensures
            tag == self.tag_byte(),
    {
        match self {
            SignalKind::Spans => 0,
            SignalKind::LogRecords => 1,
            SignalKind::MetricPoints => 2,
        }
    }
}

/// One record of an answer, shared as stored.
#[derive(Clone, Debug, PartialEq, Eq)]
pub enum RecordView {
    /// A span.
    Span(Arc<Span>),
    /// A log record.
    LogRecord(Arc<LogRecord>),
    /// A metric point with the stream it was admitted under.
    MetricPoint {
        /// The point.
        point: Arc<MetricPoint>,
        /// The stream.
        stream: Arc<StreamIdentity>,
    },
}

/// A query for the records of one kind that its filters select.
#[derive(Clone, Debug, PartialEq, Eq)]
pub struct RecordsQuery {
    filters: RecordsFilters,
}

/// The mathematical reading of [`RecordsQuery`].
pub ghost struct QueryModel {
    /// The kind.
    pub kind: SignalKind,
    /// What is selected.
    pub filters: filters::FilterModel,
}

impl QueryModel {
    /// The query's description: tag, version, kind, then the filters.
    pub open spec fn description(self) -> Seq<u8> {
        seq![QUERY_TAG, QUERY_VERSION, self.kind.tag_byte()] + self.filters.canonical(self.kind)
    }

    /// The fingerprint that the query's cursors carry.
    pub open spec fn fingerprint(self) -> u64 {
        cursor::fingerprint_of(self.description())
    }
}

/// Two queries with one description are one query: their kinds and everything
/// they select agree.
pub proof fn description_is_injective(a: QueryModel, b: QueryModel)
    requires
        a.filters.valid(a.kind),
        b.filters.valid(b.kind),
        a.description() == b.description(),
    ensures
        a == b,
{
    assert(a.description()[2] == a.kind.tag_byte());
    assert(b.description()[2] == b.kind.tag_byte());
    assert(a.filters.canonical(a.kind) =~= a.description().skip(3));
    assert(b.filters.canonical(b.kind) =~= b.description().skip(3));
    filters::canonical_encoding_is_injective(a.kind, a.filters, b.filters);
}

impl View for RecordsQuery {
    type V = QueryModel;

    closed spec fn view(&self) -> QueryModel {
        QueryModel { kind: self.filters.kind(), filters: self.filters@ }
    }
}

impl RecordsQuery {
    /// The query for every record of `kind`.
    #[must_use]
    pub fn new(kind: SignalKind) -> (query: RecordsQuery)
        ensures
            query@ == (QueryModel { kind, filters: filters::FilterModel::nothing_set() }),
    {
        let filters = match kind {
            SignalKind::Spans => RecordsFilters::Spans(SpanFilters::all_none()),
            SignalKind::LogRecords => RecordsFilters::LogRecords(LogFilters::all_none()),
            SignalKind::MetricPoints => RecordsFilters::MetricPoints(MetricFilters::all_none()),
        };
        RecordsQuery { filters }
    }

    /// The query for the spans that `filters` select.
    #[must_use]
    pub fn spans(filters: SpanFilters) -> (query: RecordsQuery)
        ensures
            query@ == (QueryModel { kind: SignalKind::Spans, filters: filters@ }),
    {
        RecordsQuery { filters: RecordsFilters::Spans(filters) }
    }

    /// The query for the log records that `filters` select.
    #[must_use]
    pub fn logs(filters: LogFilters) -> (query: RecordsQuery)
        ensures
            query@ == (QueryModel { kind: SignalKind::LogRecords, filters: filters@ }),
    {
        RecordsQuery { filters: RecordsFilters::LogRecords(filters) }
    }

    /// The query for the metric points that `filters` select.
    #[must_use]
    pub fn metric_points(filters: MetricFilters) -> (query: RecordsQuery)
        ensures
            query@ == (QueryModel { kind: SignalKind::MetricPoints, filters: filters@ }),
    {
        RecordsQuery { filters: RecordsFilters::MetricPoints(filters) }
    }

    /// The kind that the query asks for.
    #[must_use]
    pub fn kind(&self) -> (kind: SignalKind)
        ensures
            kind == self@.kind,
    {
        self.filters.signal_kind()
    }

    /// The query's filters, which are its kind's.
    #[must_use]
    pub fn filters(&self) -> (filters: &RecordsFilters)
        ensures
            filters@ == self@.filters,
            filters.kind() == self@.kind,
    {
        &self.filters
    }

    /// The query's description.
    #[must_use]
    pub fn canonical_bytes(&self) -> (bytes: Vec<u8>)
        ensures
            bytes@ == self@.description(),
    {
        let mut bytes: Vec<u8> = Vec::new();
        bytes.push(QUERY_TAG);
        bytes.push(QUERY_VERSION);
        bytes.push(self.filters.signal_kind().tag());
        assert(bytes@ =~= seq![QUERY_TAG, QUERY_VERSION, self@.kind.tag_byte()]);
        self.filters.push_canonical(&mut bytes);
        bytes
    }
}

/// Why a query failed outright: its continuation was rejected. A budget that
/// expires is an answer, not a failure.
#[derive(Clone, Copy, Debug, PartialEq, Eq)]
pub enum QueryError {
    /// The continuation is not a cursor of this query.
    Cursor(CursorError),
}

impl QueryError {
    /// What the error says.
    pub open spec fn text(self) -> Seq<char> {
        match self {
            QueryError::Cursor(error) => "records query failed: "@ + error.text(),
        }
    }

    /// What the error says.
    #[must_use]
    pub fn message(&self) -> (text: String)
        ensures
            text@ == self.text(),
    {
        match self {
            QueryError::Cursor(error) => {
                let mut text = "records query failed: ".to_owned();
                text.append(error.message().as_str());
                text
            },
        }
    }
}

impl vstd::std_specs::convert::FromSpecImpl<CursorError> for QueryError {
    open spec fn obeys_from_spec() -> bool {
        true
    }

    open spec fn from_spec(error: CursorError) -> QueryError {
        QueryError::Cursor(error)
    }
}

impl From<CursorError> for QueryError {
    fn from(error: CursorError) -> (failure: QueryError) {
        QueryError::Cursor(error)
    }
}

/// The evidence bytes of a record.
fn evidence_of(record: &RecordView) -> (bytes: u64)
    ensures
        bytes == walk::evidence(*record),
{
    match record {
        RecordView::Span(span) => span.accounted_size() as u64,
        RecordView::LogRecord(log) => log.accounted_size() as u64,
        RecordView::MetricPoint { point, .. } => point.accounted_size() as u64,
    }
}

/// Scanned spans, as records of any kind.
fn span_batch(items: Vec<ScanItem<Arc<Span>>>) -> (batch: Vec<Yielded>)
    ensures
        batch@ == items@.map_values(|item: ScanItem<Arc<Span>>| storage::span_yielded(item)),
{
    let ghost all = items@;
    let mut batch: Vec<Yielded> = Vec::new();
    for item in it: items.into_iter()
        invariant
            it.seq() == all,
            batch@ == all.take(it.index() as int).map_values(
                |item: ScanItem<Arc<Span>>| storage::span_yielded(item),
            ),
    {
        batch.push(Yielded { key: item.key, record: RecordView::Span(item.record) });
    }
    assert(all.take(all.len() as int) =~= all);
    batch
}

/// Scanned log records, as records of any kind.
fn log_batch(items: Vec<ScanItem<Arc<LogRecord>>>) -> (batch: Vec<Yielded>)
    ensures
        batch@ == items@.map_values(|item: ScanItem<Arc<LogRecord>>| storage::log_yielded(item)),
{
    let ghost all = items@;
    let mut batch: Vec<Yielded> = Vec::new();
    for item in it: items.into_iter()
        invariant
            it.seq() == all,
            batch@ == all.take(it.index() as int).map_values(
                |item: ScanItem<Arc<LogRecord>>| storage::log_yielded(item),
            ),
    {
        batch.push(Yielded { key: item.key, record: RecordView::LogRecord(item.record) });
    }
    assert(all.take(all.len() as int) =~= all);
    batch
}

/// Scanned metric points, as records of any kind.
fn point_batch(items: Vec<ScanItem<PointView>>) -> (batch: Vec<Yielded>)
    ensures
        batch@ == items@.map_values(|item: ScanItem<PointView>| storage::point_yielded(item)),
{
    let ghost all = items@;
    let mut batch: Vec<Yielded> = Vec::new();
    for item in it: items.into_iter()
        invariant
            it.seq() == all,
            batch@ == all.take(it.index() as int).map_values(
                |item: ScanItem<PointView>| storage::point_yielded(item),
            ),
    {
        batch.push(
            Yielded {
                key: item.key,
                record: RecordView::MetricPoint {
                    point: item.record.point,
                    stream: item.record.stream,
                },
            },
        );
    }
    assert(all.take(all.len() as int) =~= all);
    batch
}

/// One page's walk: what it accumulates from batch to batch. The budget's
/// session is held by the caller.
struct Walk<'a, S: TelemetryStore + ?Sized> {
    store: &'a S,
    kind: SignalKind,
    fingerprint: u64,
    filters: &'a RecordsFilters,
    presented: Option<CursorPayload>,
    items: Vec<RecordView>,
    coverage: Vec<CoverageEntry>,
    after: Option<AdmissionKey>,
    frontier: Option<AdmissionKey>,
    last_included: Option<AdmissionKey>,
    last_examined: Option<AdmissionKey>,
    counting: Option<Counting>,
    pending_gap: Option<EntityId>,
    empty_pulls: usize,
    stopped: Option<PartOutcome>,
}

/// The reading of an optional cursor.
pub open spec fn cursor_model(payload: Option<CursorPayload>) -> Option<cursor::CursorModel> {
    match payload {
        Some(payload) => Some(payload@),
        None => None,
    }
}

impl<'a, S: TelemetryStore + ?Sized> Walk<'a, S> {
    /// The walk's reading, together with the session that it spends.
    spec fn model(self, session: budget::SessionModel) -> walk::WalkModel {
        walk::WalkModel {
            kind: self.kind,
            filters: self.filters@,
            fingerprint: self.fingerprint,
            presented: cursor_model(self.presented),
            session,
            items: self.items@,
            coverage: self.coverage@,
            after: self.after,
            frontier: self.frontier,
            last_included: self.last_included,
            last_examined: self.last_examined,
            counting: self.counting,
            pending_gap: self.pending_gap,
            empty_pulls: self.empty_pulls as nat,
            stopped: match self.stopped {
                Some(outcome) => Some(outcome@),
                None => None,
            },
        }
    }

    /// What the walk does not change: where it reads, and what it selects.
    spec fn same_terms(self, before: Walk<'a, S>) -> bool {
        &&& self.store == before.store
        &&& self.filters == before.filters
        &&& self.kind == before.kind
    }

    /// Pulls the next batch.
    fn pull(&self) -> (pulled: (Vec<Yielded>, Option<AdmissionKey>))
        ensures
            self.store.may_scan(self.kind, self.after, SCAN_BATCH, pulled.0@, pulled.1),
            walk::all_of_kind(self.kind, pulled.0@),
    {
        match self.kind {
            SignalKind::Spans => {
                let page = self.store.scan_spans(self.after, SCAN_BATCH);
                (span_batch(page.items), page.cursor)
            },
            SignalKind::LogRecords => {
                let page = self.store.scan_log_records(self.after, SCAN_BATCH);
                (log_batch(page.items), page.cursor)
            },
            SignalKind::MetricPoints => {
                let page = self.store.scan_metric_points(self.after, SCAN_BATCH);
                (point_batch(page.items), page.cursor)
            },
        }
    }

    /// The bytes of the cursor minted at `anchor`.
    fn cursor_bytes(
        &self,
        anchor: AdmissionKey,
        Ghost(session): Ghost<budget::SessionModel>,
    ) -> (bytes: Vec<u8>)
        ensures
            bytes@ == self.model(session).cursor_at(anchor).encoding(),
    {
        let snapshot = match (&self.presented, self.frontier) {
            (Some(payload), _) => payload.snapshot(),
            (None, Some(frontier)) => frontier,
            (None, None) => anchor,
        };
        CursorPayload::new(
            anchor.admitted_at().as_unix_nano(),
            anchor.entity(),
            self.fingerprint,
            snapshot,
        ).encode()
    }

    /// The presented cursor, byte for byte.
    fn presented_echo(&self) -> (echo: Option<TruncationPoint>)
        ensures
            match (echo, self.presented) {
                (Some(point), Some(payload)) => point@ == result::PointModel::Cursor(
                    payload@.encoding(),
                ),
                (None, None) => true,
                _ => false,
            },
    {
        match &self.presented {
            Some(payload) => Some(TruncationPoint::Cursor(payload.encode())),
            None => None,
        }
    }

    /// The cut that leaves everything after the last returned record to a
    /// continuation.
    fn include_anchored_degrade(
        &self,
        dimension: Dimension,
        omitted: u64,
        last_examined: EntityId,
        Ghost(session): Ghost<budget::SessionModel>,
    ) -> (outcome: PartOutcome)
        ensures
            outcome@ == self.model(session).cut(dimension, omitted, last_examined),
    {
        let position = match self.last_included {
            Some(anchor) => TruncationPoint::Cursor(self.cursor_bytes(anchor, Ghost(session))),
            None => match self.presented_echo() {
                Some(echo) => echo,
                None => TruncationPoint::LastExamined(last_examined),
            },
        };
        PartOutcome::Degraded { truncation: Truncation { dimension, position, omitted } }
    }

    /// Stops before a record whose examination was refused.
    fn stop_before_examining(
        &mut self,
        refusal: BudgetRefusal,
        Ghost(session): Ghost<budget::SessionModel>,
    )
        ensures
            final(self).same_terms(*old(self)),
            final(self).model(session) == old(self).model(session).cut_before_examining(refusal),
    {
        if let Some(counting) = self.counting.take() {
            let outcome = if counting.seen == 1 && self.last_included.is_some() {
                self.include_anchored_degrade(
                    Dimension::Bytes,
                    counting.seen,
                    counting.last,
                    Ghost(session),
                )
            } else {
                PartOutcome::Degraded {
                    truncation: Truncation {
                        dimension: Dimension::Bytes,
                        position: TruncationPoint::Cursor(
                            self.cursor_bytes(counting.last_seen, Ghost(session)),
                        ),
                        omitted: counting.seen,
                    },
                }
            };
            let after = match self.last_examined {
                Some(key) => key.entity(),
                None => counting.last,
            };
            self.coverage.push(
                CoverageEntry::UncountedTail { after, dimension: refusal.dimension },
            );
            self.stopped = Some(outcome);
            return;
        }
        match self.last_examined {
            Some(anchor) => {
                let position = TruncationPoint::Cursor(self.cursor_bytes(anchor, Ghost(session)));
                self.stopped =
                Some(
                    PartOutcome::Degraded {
                        truncation: Truncation {
                            dimension: refusal.dimension,
                            position,
                            omitted: 0,
                        },
                    },
                );
            },
            None => {
                self.stopped = Some(PartOutcome::Refused(refusal));
            },
        }
    }

    /// Stops at the end of what there is to see.
    fn finish_counting_or_complete(&mut self, Ghost(session): Ghost<budget::SessionModel>)
        ensures
            final(self).same_terms(*old(self)),
            final(self).model(session) == old(self).model(session).finished(),
    {
        match self.counting.take() {
            Some(counting) => {
                let outcome = self.include_anchored_degrade(
                    Dimension::Bytes,
                    counting.omitted,
                    counting.last,
                    Ghost(session),
                );
                self.stopped = Some(outcome);
            },
            None => {
                self.stopped = Some(PartOutcome::Complete);
            },
        }
    }

    /// Judges one record, behind which its batch holds `unexamined_after`
    /// more; says which readings of the clock it took.
    fn examine(
        &mut self,
        session: &mut BudgetSession,
        yielded: Yielded,
        unexamined_after: u64,
    ) -> (readings: Ghost<walk::Readings>)
        requires
            unexamined_after < u64::MAX,
            old(self).filters.kind() == old(self).kind,
            old(self).model(old(session)@).countable(),
        ensures
            final(self).same_terms(*old(self)),
            final(self).model(final(session)@) == old(self).model(old(session)@).judged(
                yielded,
                unexamined_after as int,
                readings@,
            ),
            final(self).model(final(session)@).countable(),
    {
        reveal(walk::WalkModel::judged);
        let ghost before = self.model(session@);
        let ghost untaken = walk::Readings {
            scan: arbitrary(),
            returned: arbitrary(),
        };
        if let Some(payload) = &self.presented {
            if order::precedes_key(payload.snapshot(), yielded.key) {
                session.settle_abandoned_scan(unexamined_after + 1);
                self.finish_counting_or_complete(Ghost(session@));
                return Ghost(untaken);
            }
        }
        let scan_at = Instant::now();
        let ghost scanned = walk::Readings { scan: scan_at, ..untaken };
        if let ScanAllowance::Partial { refusal, .. } = session.allow_scan(scan_at, 1) {
            session.settle_abandoned_scan(unexamined_after + 1);
            self.stop_before_examining(refusal, Ghost(session@));
            return Ghost(scanned);
        }
        self.last_examined = Some(yielded.key);
        if let Some(anchor) = self.pending_gap.take() {
            self.coverage.push(
                CoverageEntry::EvictionGap { after: anchor, before: yielded.key.entity() },
            );
        }
        assert(self.model(session@) == before.examined(yielded.key, scan_at));
        if !self.filters.matches(&yielded.record) {
            return Ghost(scanned);
        }
        let evidence: u64 = evidence_of(&yielded.record);
        let entity = yielded.key.entity();
        if let Some(counting) = self.counting {
            self.counting =
            Some(
                if session.ledger().remaining_bytes() < evidence {
                    Counting {
                        omitted: counting.omitted + 1,
                        last: entity,
                        seen: counting.seen + 1,
                        last_seen: yielded.key,
                    }
                } else {
                    Counting { seen: counting.seen + 1, last_seen: yielded.key, ..counting }
                },
            );
            return Ghost(scanned);
        }
        if session.ledger().remaining_results() == 0 {
            session.settle_abandoned_scan(unexamined_after);
            self.stopped =
            Some(
                self.include_anchored_degrade(Dimension::Results, 0, entity, Ghost(session@)),
            );
            return Ghost(scanned);
        }
        let returned_at = Instant::now();
        let ghost charged = walk::Readings { returned: returned_at, ..scanned };
        if session.deadline_exhausted(returned_at) {
            session.settle_abandoned_scan(unexamined_after);
            self.stopped =
            Some(
                self.include_anchored_degrade(Dimension::Deadline, 0, entity, Ghost(session@)),
            );
            return Ghost(charged);
        }
        if session.ledger().remaining_bytes() < evidence {
            self.counting =
            Some(Counting { omitted: 1, last: entity, seen: 1, last_seen: yielded.key });
            return Ghost(charged);
        }
        let _ = session.allow_results(returned_at, 1);
        let _ = session.allow_bytes(returned_at, evidence);
        self.last_included = Some(yielded.key);
        self.items.push(yielded.record);
        Ghost(charged)
    }

    /// Judges a batch's records until one of them stops the walk; says which
    /// readings of the clock each of them took.
    #[verifier::loop_isolation(false)]
    fn examine_batch(&mut self, session: &mut BudgetSession, batch: Vec<Yielded>) -> (readings:
        Ghost<Seq<walk::Readings>>)
        requires
            old(self).stopped is None,
            old(self).filters.kind() == old(self).kind,
            old(self).model(old(session)@).countable(),
        ensures
            final(self).same_terms(*old(self)),
            readings@.len() == batch@.len(),
            forall|cursor: Option<AdmissionKey>|
                final(self).model(final(session)@) == (#[trigger] old(self).model(
                    old(session)@,
                ).judged_batch(
                    walk::Pull { records: batch@, cursor, readings: readings@ },
                    batch@.len(),
                )),
            final(self).model(final(session)@).countable(),
    {
        let ghost start = self.model(session@);
        let ghost walk_before = *self;
        let ghost records = batch@;
        let ghost mut taken: Seq<walk::Readings> = Seq::empty();
        let total: usize = batch.len();
        let mut index: usize = 0;
        for yielded in it: batch.into_iter()
            invariant
                it.seq() == records,
                index == it.index(),
                total == records.len(),
                taken.len() == index,
                self.stopped is None,
                self.same_terms(walk_before),
                self.filters.kind() == self.kind,
                self.model(session@) == start.judged_batch(
                    walk::Pull { records, cursor: None, readings: taken },
                    index as nat,
                ),
                self.model(session@).countable(),
        {
            let unexamined_after: u64 = (total - index - 1) as u64;
            let Ghost(reading) = self.examine(session, yielded, unexamined_after);
            proof {
                let longer = taken.push(reading);
                walk::judged_batch_reads_ahead_of_nothing(
                    start,
                    walk::Pull { records, cursor: None, readings: taken },
                    walk::Pull { records, cursor: None, readings: longer },
                    index as nat,
                );
                taken = longer;
            }
            index += 1;
            if self.stopped.is_some() {
                let ghost padded = Seq::new(
                    total as nat,
                    |i: int|
                        if i < taken.len() {
                            taken[i]
                        } else {
                            arbitrary()
                        },
                );
                proof {
                    assert forall|cursor: Option<AdmissionKey>|
                        self.model(session@) == (#[trigger] start.judged_batch(
                            walk::Pull { records, cursor, readings: padded },
                            records.len(),
                        )) by {
                        let pull = walk::Pull { records, cursor, readings: padded };
                        walk::judged_batch_reads_ahead_of_nothing(
                            start,
                            walk::Pull { records, cursor: None, readings: taken },
                            pull,
                            index as nat,
                        );
                        walk::judged_batch_stays_stopped(start, pull, index as nat, records.len());
                    }
                }
                return Ghost(padded);
            }
        }
        proof {
            assert forall|cursor: Option<AdmissionKey>|
                self.model(session@) == (#[trigger] start.judged_batch(
                    walk::Pull { records, cursor, readings: taken },
                    records.len(),
                )) by {
                walk::judged_batch_reads_ahead_of_nothing(
                    start,
                    walk::Pull { records, cursor: None, readings: taken },
                    walk::Pull { records, cursor, readings: taken },
                    records.len(),
                );
            }
        }
        Ghost(taken)
    }

    /// The page of a walk that has stopped.
    fn assemble(self, Ghost(session): Ghost<budget::SessionModel>) -> (page: Page<RecordView>)
        requires
            self.stopped is Some,
        ensures
            page@ == self.model(session).page(),
    {
        let mut this = self;
        let ghost model = this.model(session);
        if let Some(after) = this.pending_gap.take() {
            let before = match &this.presented {
                Some(payload) => payload.snapshot().entity(),
                None => after,
            };
            this.coverage.push(CoverageEntry::EvictionGap { after, before });
        }
        let part = match this.stopped {
            Some(part) => part,
            None => PartOutcome::Complete,
        };
        let next_cursor = match &part {
            PartOutcome::Degraded { truncation } => match &truncation.position {
                TruncationPoint::Cursor(bytes) => Some(copy_bytes(bytes)),
                TruncationPoint::LastExamined(_) => None,
            },
            _ => None,
        };
        let page = Page {
            items: this.items,
            next_cursor,
            execution: Execution {
                parts: vec![part],
                coverage: Coverage { entries: this.coverage },
            },
        };
        assert(page@.parts =~= model.page().parts);
        page
    }

    /// Walks to the stop: the kind's end, the snapshot boundary, a budget's
    /// expiry, or a store that claims successors and never yields them.
    fn run(self, session: &mut BudgetSession) -> (page: Page<RecordView>)
        requires
            self.stopped is None,
            self.counting is None,
            self.empty_pulls == 0,
            self.filters.kind() == self.kind,
        ensures
            exists|pulls: Seq<walk::Pull>|
                {
                    &&& (#[trigger] self.model(old(session)@).may_walk(self.store, pulls))
                    &&& page@ == self.model(old(session)@).walked(pulls).page()
                    &&& final(session)@ == self.model(old(session)@).walked(pulls).session
                },
    {
        let mut this = self;
        let ghost start = this.model(session@);
        let ghost store = this.store;
        let ghost mut pulls: Seq<walk::Pull> = Seq::empty();
        while this.stopped.is_none()
            invariant
                this.store == store,
                this.kind == start.kind,
                this.filters.kind() == this.kind,
                this.model(session@) == start.walked(pulls),
                this.model(session@).countable(),
                this.stopped is None ==> this.empty_pulls < EMPTY_PAGE_STALL_LIMIT,
                forall|i: int| 0 <= i < pulls.len() ==> #[trigger] start.may_pull(store, pulls, i),
            decreases
                (if this.stopped is None {
                    1int
                } else {
                    0int
                }),
                session@.ledger.scan.remaining,
                EMPTY_PAGE_STALL_LIMIT - this.empty_pulls,
        {
            let (batch, batch_cursor) = this.pull();
            let ghost records = batch@;
            this.frontier =
            match batch_cursor {
                Some(cursor) => Some(cursor),
                None => match batch.last() {
                    Some(yielded) => Some(yielded.key),
                    None => None,
                },
            };
            let ghost before = start.walked(pulls);
            let ghost mut pull = walk::Pull {
                records,
                cursor: batch_cursor,
                readings: Seq::empty(),
            };
            if batch.len() == 0 {
                if let Some(cursor) = batch_cursor {
                    this.empty_pulls = this.empty_pulls + 1;
                    if this.empty_pulls >= EMPTY_PAGE_STALL_LIMIT {
                        let after = match this.last_examined {
                            Some(key) => key.entity(),
                            None => cursor.entity(),
                        };
                        this.coverage.push(CoverageEntry::DriverStall { after });
                        this.stopped = Some(PartOutcome::Stalled);
                    } else {
                        this.after = Some(cursor);
                    }
                } else {
                    this.empty_pulls = 0;
                    this.finish_counting_or_complete(Ghost(session@));
                }
                assert(this.model(session@) == before.after_pull(pull));
            } else {
                this.empty_pulls = 0;
                assert(this.model(session@) == before.pulled(pull));
                let Ghost(readings) = this.examine_batch(session, batch);
                proof {
                    pull = walk::Pull { readings, ..pull };
                    assert(this.model(session@) == before.pulled(pull).judged_batch(
                        pull,
                        records.len(),
                    ));
                    walk::a_judged_batch_is_charged_for(before.pulled(pull), pull, records.len());
                }
                if this.stopped.is_none() {
                    match batch_cursor {
                        Some(next) => {
                            this.after = Some(next);
                        },
                        None => {
                            this.finish_counting_or_complete(Ghost(session@));
                        },
                    }
                }
                assert(this.model(session@) == before.after_pull(pull));
            }
            proof {
                walk::pulls_extend(start, store, pulls, pull);
                pulls = pulls.push(pull);
            }
        }
        assert(start.may_walk(store, pulls));
        this.assemble(Ghost(session@))
    }
}

/// The same bytes, once more.
fn copy_bytes(bytes: &Vec<u8>) -> (copy: Vec<u8>)
    ensures
        copy@ == bytes@,
{
    let mut copy: Vec<u8> = Vec::new();
    crate::codec::push_all(&mut copy, bytes.as_slice());
    assert(copy@ =~= bytes@);
    copy
}

/// The cursor that a query continues: none, or the one that `continuation`
/// encodes, if it encodes one and it belongs to the query.
pub open spec fn presented_cursor(query: QueryModel, continuation: Option<Seq<u8>>) -> Result<
    Option<cursor::CursorModel>,
    CursorError,
> {
    match continuation {
        None => Ok(None),
        Some(bytes) => match cursor::decoding(bytes) {
            None => Err(CursorError::Malformed),
            Some(presented) => if presented.fingerprint == query.fingerprint() {
                Ok(Some(presented))
            } else {
                Err(CursorError::FingerprintMismatch)
            },
        },
    }
}

/// The bytes of an optional continuation.
pub open spec fn bytes_of(continuation: Option<&[u8]>) -> Option<Seq<u8>> {
    match continuation {
        Some(bytes) => Some(bytes@),
        None => None,
    }
}

/// The page of a query that may return nothing: empty, complete, and naming
/// the boundary that it continues within and the gap at its anchor.
pub open spec fn empty_page(
    presented: Option<cursor::CursorModel>,
    resident: bool,
) -> result::PageModel<RecordView> {
    result::PageModel {
        items: Seq::empty(),
        next_cursor: None,
        parts: seq![result::PartModel::Complete],
        coverage: match presented {
            None => Seq::empty(),
            Some(cursor) => {
                let boundary = CoverageEntry::SnapshotBoundary { admission: cursor.snapshot };
                if resident {
                    seq![boundary]
                } else {
                    seq![
                        boundary,
                        CoverageEntry::EvictionGap {
                            after: cursor.last_entity,
                            before: cursor.snapshot.entity_id(),
                        },
                    ]
                }
            },
        },
    }
}

/// Whether the store may say of the presented cursor's entity that it is
/// resident, or that it is not. Of no cursor it is not asked.
pub open spec fn may_be_resident<S: TelemetryStore + ?Sized>(
    store: &S,
    kind: SignalKind,
    presented: Option<cursor::CursorModel>,
    resident: bool,
) -> bool {
    match presented {
        Some(cursor) => store.may_find(kind, cursor.last_entity, resident),
        None => resident,
    }
}

/// Where the walk of a query starts.
pub open spec fn walk_start(
    query: QueryModel,
    session: budget::SessionModel,
    presented: Option<cursor::CursorModel>,
    resident: bool,
) -> walk::WalkModel {
    walk::WalkModel::start(
        query.kind,
        query.filters,
        query.fingerprint(),
        session,
        presented,
        resident,
    )
}

/// Whether a walk of the query over the store may end with this page, leaving
/// the session as `after`.
pub open spec fn may_walk_to<S: TelemetryStore + ?Sized>(
    store: &S,
    query: QueryModel,
    session: budget::SessionModel,
    presented: Option<cursor::CursorModel>,
    page: result::PageModel<RecordView>,
    after: budget::SessionModel,
) -> bool {
    exists|resident: bool, pulls: Seq<walk::Pull>|
        {
            &&& may_be_resident(store, query.kind, presented, resident)
            &&& #[trigger] walk_start(query, session, presented, resident).may_walk(store, pulls)
            &&& page == walk_start(query, session, presented, resident).walked(pulls).page()
            &&& after == walk_start(query, session, presented, resident).walked(pulls).session
        }
}

/// Whether the query may be answered with this page: the empty page where the
/// budget admits no result, and otherwise where a walk may end.
pub open spec fn may_answer<S: TelemetryStore + ?Sized>(
    store: &S,
    query: QueryModel,
    session: budget::SessionModel,
    presented: Option<cursor::CursorModel>,
    page: result::PageModel<RecordView>,
) -> bool {
    if session.ledger.results.remaining == 0 {
        exists|resident: bool|
            #[trigger] may_be_resident(store, query.kind, presented, resident) && page
                == empty_page(presented, resident)
    } else {
        exists|after: budget::SessionModel|
            #[trigger] may_walk_to(store, query, session, presented, page, after)
    }
}

/// Whether the query, admitted with a budget at some reading of the clock, may be
/// answered with this page where it continues from these bytes.
pub open spec fn may_return<S: TelemetryStore + ?Sized>(
    store: &S,
    query: QueryModel,
    budget: budget::BudgetModel,
    continuation: Option<Seq<u8>>,
    page: result::PageModel<RecordView>,
) -> bool {
    presented_cursor(query, continuation) matches Ok(presented) && exists|at: Instant|
        may_answer(
            store,
            query,
            #[trigger] budget::SessionModel::admitted(budget, at),
            presented,
            page,
        )
}

/// Whether the record at a cursor's anchor is resident: one lookup, which
/// charges nothing.
fn anchor_is_resident<S: TelemetryStore + ?Sized>(
    store: &S,
    kind: SignalKind,
    anchor: EntityId,
) -> (resident: bool)
    ensures
        store.may_find(kind, anchor, resident),
{
    match kind {
        SignalKind::Spans => store.span(anchor).is_some(),
        SignalKind::LogRecords => store.log_record(anchor).is_some(),
        SignalKind::MetricPoints => store.metric_point(anchor).is_some(),
    }
}

/// Walks one page within an admitted session, which the caller keeps and can
/// read afterwards.
pub fn walk_records<S: TelemetryStore + ?Sized>(
    store: &S,
    query: &RecordsQuery,
    session: &mut BudgetSession,
    presented: Option<CursorPayload>,
) -> (page: Page<RecordView>)
    ensures
        may_walk_to(
            store,
            query@,
            old(session)@,
            cursor_model(presented),
            page@,
            final(session)@,
        ),
{
    let fingerprint: u64 = cursor::fingerprint(query.canonical_bytes().as_slice());
    let mut coverage: Vec<CoverageEntry> = Vec::new();
    let mut pending_gap: Option<EntityId> = None;
    let mut after: Option<AdmissionKey> = None;
    let mut resident = true;
    if let Some(payload) = &presented {
        coverage.push(CoverageEntry::SnapshotBoundary { admission: payload.snapshot() });
        let anchor = payload.last_entity();
        resident = anchor_is_resident(store, query.kind(), anchor);
        if !resident {
            pending_gap = Some(anchor);
        }
        after =
        Some(AdmissionKey::new(AdmissionTime::from_unix_nano(payload.position()), anchor));
    }
    let walk = Walk {
        store,
        kind: query.kind(),
        fingerprint,
        filters: query.filters(),
        presented,
        items: Vec::new(),
        coverage,
        after,
        frontier: None,
        last_included: None,
        last_examined: None,
        counting: None,
        pending_gap,
        empty_pulls: 0,
        stopped: None,
    };
    proof {
        let start = walk_start(query@, session@, cursor_model(presented), resident);
        assert(walk.model(session@).coverage =~= start.coverage);
        assert(walk.model(session@) == start);
    }
    walk.run(session)
}

/// The cursor that a query continues.
fn present(query: &RecordsQuery, continuation: Option<&[u8]>) -> (presented: Result<
    Option<CursorPayload>,
    CursorError,
>)
    ensures
        match presented {
            Ok(payload) => presented_cursor(query@, bytes_of(continuation)) == Ok::<
                Option<cursor::CursorModel>,
                CursorError,
            >(cursor_model(payload)),
            Err(error) => presented_cursor(query@, bytes_of(continuation)) == Err::<
                Option<cursor::CursorModel>,
                CursorError,
            >(error),
        },
{
    match continuation {
        None => Ok(None),
        Some(bytes) => match CursorPayload::decode(bytes) {
            Err(error) => Err(error),
            Ok(payload) => match payload.verify(
                cursor::fingerprint(query.canonical_bytes().as_slice()),
            ) {
                Err(error) => Err(error),
                Ok(()) => Ok(Some(payload)),
            },
        },
    }
}

/// Answers a query that continues `presented`.
fn answer<S: TelemetryStore + ?Sized>(
    store: &S,
    query: &RecordsQuery,
    budget: QueryBudget,
    presented: Option<CursorPayload>,
) -> (page: Page<RecordView>)
    ensures
        exists|at: Instant|
            may_answer(
                store,
                query@,
                #[trigger] budget::SessionModel::admitted(budget@, at),
                cursor_model(presented),
                page@,
            ),
{
    let at = Instant::now();
    let mut session = budget.admit_at(at);
    let ghost admitted = budget::SessionModel::admitted(budget@, at);
    if session.ledger().remaining_results() == 0 {
        let mut entries: Vec<CoverageEntry> = Vec::new();
        let mut resident = true;
        if let Some(payload) = &presented {
            entries.push(CoverageEntry::SnapshotBoundary { admission: payload.snapshot() });
            resident = anchor_is_resident(store, query.kind(), payload.last_entity());
            if !resident {
                entries.push(
                    CoverageEntry::EvictionGap {
                        after: payload.last_entity(),
                        before: payload.snapshot().entity(),
                    },
                );
            }
        }
        let page = Page {
            items: Vec::new(),
            next_cursor: None,
            execution: Execution {
                parts: vec![PartOutcome::Complete],
                coverage: Coverage { entries },
            },
        };
        proof {
            let expected = empty_page(cursor_model(presented), resident);
            assert(page@.coverage =~= expected.coverage);
            assert(page@.parts =~= expected.parts);
            assert(page@.items =~= expected.items);
            assert(may_be_resident(store, query@.kind, cursor_model(presented), resident));
        }
        return page;
    }
    let page = walk_records(store, query, &mut session, presented);
    assert(may_walk_to(store, query@, admitted, cursor_model(presented), page@, session@));
    page
}

/// Answers a query within its budget: one page, in the residency order. The
/// budget is admitted here, at the clock's reading. The query fails only on its
/// continuation; a budget's expiry is part of the answer.
pub fn records<S: TelemetryStore + ?Sized>(
    store: &S,
    query: &RecordsQuery,
    budget: QueryBudget,
    continuation: Option<&[u8]>,
) -> (answered: Result<Page<RecordView>, QueryError>)
    ensures
        match presented_cursor(query@, bytes_of(continuation)) {
            Ok(_) => answered matches Ok(page) && may_return(
                store,
                query@,
                budget@,
                bytes_of(continuation),
                page@,
            ),
            Err(error) => answered == Err::<Page<RecordView>, QueryError>(
                QueryError::Cursor(error),
            ),
        },
{
    match present(query, continuation) {
        Ok(presented) => Ok(answer(store, query, budget, presented)),
        Err(error) => Err(QueryError::from(error)),
    }
}

/// Answers a page of a continuation on behalf of the investigation that holds
/// `lease`: as [`records`] does, but a cursor whose snapshot the lease does not
/// govern is rejected.
pub fn records_leased<S: TelemetryStore + ?Sized>(
    store: &S,
    query: &RecordsQuery,
    budget: QueryBudget,
    continuation: &[u8],
    lease: &SnapshotLease,
) -> (answered: Result<Page<RecordView>, QueryError>)
    ensures
        match presented_cursor(query@, Some(continuation@)) {
            Ok(presented) => if lease@.governs(presented->Some_0.snapshot) {
                answered matches Ok(page) && may_return(
                    store,
                    query@,
                    budget@,
                    Some(continuation@),
                    page@,
                )
            } else {
                answered == Err::<Page<RecordView>, QueryError>(
                    QueryError::Cursor(CursorError::LeaseMismatch),
                )
            },
            Err(error) => answered == Err::<Page<RecordView>, QueryError>(
                QueryError::Cursor(error),
            ),
        },
{
    match present(query, Some(continuation)) {
        Ok(presented) => {
            if let Some(payload) = &presented {
                if let Err(error) = payload.verify_lease(lease) {
                    return Err(QueryError::from(error));
                }
            }
            Ok(answer(store, query, budget, presented))
        },
        Err(error) => Err(QueryError::from(error)),
    }
}

/// A query is for the kind and the filters that it was made of.
pub proof fn a_query_is_for_what_it_was_made_of(
    kind: SignalKind,
    plain: RecordsQuery,
    spans: SpanFilters,
    for_spans: RecordsQuery,
    logs: LogFilters,
    for_logs: RecordsQuery,
    points: MetricFilters,
    for_points: RecordsQuery,
    query: RecordsQuery,
    said: SignalKind,
    filters: &RecordsFilters,
)
    requires
        call_ensures(RecordsQuery::new, (kind,), plain),
        call_ensures(RecordsQuery::spans, (spans,), for_spans),
        call_ensures(RecordsQuery::logs, (logs,), for_logs),
        call_ensures(RecordsQuery::metric_points, (points,), for_points),
        call_ensures(RecordsQuery::kind, (&query,), said),
        call_ensures(RecordsQuery::filters, (&query,), filters),
    ensures
        query == plain ==> said == kind,
        query == plain ==> forall|record: RecordView|
            #[trigger] filters::selected(said, filters@, record),
        query == for_spans ==> said == SignalKind::Spans && filters@ == spans@,
        query == for_logs ==> said == SignalKind::LogRecords && filters@ == logs@,
        query == for_points ==> said == SignalKind::MetricPoints && filters@ == points@,
        said == match *filters {
            RecordsFilters::Spans(_) => SignalKind::Spans,
            RecordsFilters::LogRecords(_) => SignalKind::LogRecords,
            RecordsFilters::MetricPoints(_) => SignalKind::MetricPoints,
        },
{
}

/// A query is described by a mark, a version, its kind and its filters.
pub proof fn a_query_is_described_by_its_kind_and_filters(query: RecordsQuery, bytes: Vec<u8>)
    requires
        call_ensures(RecordsQuery::canonical_bytes, (&query,), bytes),
    ensures
        bytes@ == seq![
            0x51u8,
            2u8,
            match query@.kind {
                SignalKind::Spans => 0u8,
                SignalKind::LogRecords => 1u8,
                SignalKind::MetricPoints => 2u8,
            },
        ] + query@.filters.canonical(query@.kind),
        query@.fingerprint() == cursor::fingerprint_of(bytes@),
{
}

/// A query fails exactly on its continuation: bytes that are no cursor are
/// malformed, and a cursor of another fingerprint is another query's.
pub proof fn a_query_fails_only_on_its_continuation<S: TelemetryStore + ?Sized>(
    store: &S,
    query: RecordsQuery,
    budget: QueryBudget,
    continuation: Option<&[u8]>,
    answered: Result<Page<RecordView>, QueryError>,
)
    requires
        call_ensures(records::<S>, (store, &query, budget, continuation), answered),
    ensures
        continuation is None ==> answered is Ok,
        continuation matches Some(bytes) ==> match cursor::decoding(bytes@) {
            None => answered == Err::<Page<RecordView>, QueryError>(
                QueryError::Cursor(CursorError::Malformed),
            ),
            Some(presented) => if presented.fingerprint == query@.fingerprint() {
                answered is Ok
            } else {
                answered == Err::<Page<RecordView>, QueryError>(
                    QueryError::Cursor(CursorError::FingerprintMismatch),
                )
            },
        },
{
}

/// On behalf of a lease a continuation is answered as without one, where the lease
/// governs its snapshot, and otherwise rejected as another snapshot's.
pub proof fn a_lease_is_asked_behind_the_query<S: TelemetryStore + ?Sized>(
    store: &S,
    query: RecordsQuery,
    budget: QueryBudget,
    continuation: &[u8],
    lease: SnapshotLease,
    governs: bool,
    answered: Result<Page<RecordView>, QueryError>,
)
    requires
        cursor::decoding(continuation@) matches Some(presented) ==> call_ensures(
            SnapshotLease::governs,
            (&lease, presented.snapshot),
            governs,
        ),
        call_ensures(records_leased::<S>, (store, &query, budget, continuation, &lease), answered),
    ensures
        match cursor::decoding(continuation@) {
            None => answered == Err::<Page<RecordView>, QueryError>(
                QueryError::Cursor(CursorError::Malformed),
            ),
            Some(presented) => if presented.fingerprint != query@.fingerprint() {
                answered == Err::<Page<RecordView>, QueryError>(
                    QueryError::Cursor(CursorError::FingerprintMismatch),
                )
            } else if !governs {
                answered == Err::<Page<RecordView>, QueryError>(
                    QueryError::Cursor(CursorError::LeaseMismatch),
                )
            } else {
                answered matches Ok(page) && may_return(
                    store,
                    query@,
                    budget@,
                    Some(continuation@),
                    page@,
                )
            },
        },
{
}

/// A budget that admits no result is answered with an empty page, complete, that
/// names its boundary and its gap, and asks the store for nothing but the anchor.
pub proof fn no_results_are_answered_with_an_empty_page<S: TelemetryStore + ?Sized>(
    store: &S,
    query: RecordsQuery,
    budget: QueryBudget,
    continuation: Option<&[u8]>,
    page: Page<RecordView>,
)
    requires
        call_ensures(records::<S>, (store, &query, budget, continuation), Ok(page)),
        budget@.max_results == 0,
    ensures
        page.items@.len() == 0,
        page.next_cursor is None,
        page@.parts == seq![result::PartModel::Complete],
        continuation is None ==> page.execution.coverage.entries@.len() == 0,
        continuation matches Some(bytes) ==> {
            let entries = page.execution.coverage.entries@;
            let presented = cursor::decoding(bytes@)->Some_0;
            &&& 1 <= entries.len() <= 2
            &&& entries[0] == (CoverageEntry::SnapshotBoundary { admission: presented.snapshot })
            &&& entries.len() == 1 ==> store.may_find(query@.kind, presented.last_entity, true)
            &&& entries.len() == 2 ==> store.may_find(query@.kind, presented.last_entity, false)
                && entries[1] == (CoverageEntry::EvictionGap {
                after: presented.last_entity,
                before: presented.snapshot.entity_id(),
            })
        },
{
}

/// A failed query says that it failed, and why.
pub proof fn a_failed_query_says_why(
    error: CursorError,
    reason: String,
    failure: QueryError,
    message: String,
)
    requires
        call_ensures(CursorError::message, (&error,), reason),
        failure == QueryError::Cursor(error),
        call_ensures(QueryError::message, (&failure,), message),
    ensures
        message@ == "records query failed: "@ + reason@,
{
}

/// A batch is 64 records, and three empty ones in a row stall.
pub proof fn a_batch_is_sixty_four_records()
    ensures
        SCAN_BATCH == 64,
        EMPTY_PAGE_STALL_LIMIT == 3,
{
}

}
