//! The storage contract: what queries read from a telemetry store.

use crate::engine::{RecordView, SignalKind};
use crate::model;
use crate::model::{AdmissionTime, EntityId, LogRecord, MetricPoint, Span, StreamIdentity};
use std::sync::Arc;
use vstd::prelude::*;

verus! {

/// A record's position in the residency order: when it was admitted, and
/// which entity it is.
#[derive(Clone, Copy, Debug, PartialEq, Eq, PartialOrd, Ord, Hash)]
pub struct AdmissionKey {
    admitted_at: AdmissionTime,
    entity: EntityId,
}

impl AdmissionKey {
    /// The admission reading, in nanoseconds.
    pub closed spec fn nanos(self) -> u64 {
        self.admitted_at@
    }

    /// The entity at this position.
    pub closed spec fn entity_id(self) -> EntityId {
        self.entity
    }

    /// The position of `entity`, admitted at `nanos`.
    pub closed spec fn at(nanos: u64, entity: EntityId) -> AdmissionKey {
        AdmissionKey { admitted_at: AdmissionTime::at(nanos), entity }
    }

    /// The position of `entity`, admitted at `admitted_at`.
    pub fn new(admitted_at: AdmissionTime, entity: EntityId) -> (key: AdmissionKey)
        ensures
            key == AdmissionKey::at(admitted_at@, entity),
            key.nanos() == admitted_at@,
            key.entity_id() == entity,
    {
        proof {
            model::admission_time_is_its_nanos(admitted_at, AdmissionTime::at(admitted_at@));
        }
        AdmissionKey { admitted_at, entity }
    }

    /// When the record was admitted.
    pub fn admitted_at(&self) -> (time: AdmissionTime)
        ensures
            time@ == self.nanos(),
    {
        self.admitted_at
    }

    /// Which entity the record is.
    pub fn entity(&self) -> (entity: EntityId)
        ensures
            entity == self.entity_id(),
    {
        self.entity
    }
}

/// Two positions are one exactly when reading and entity agree.
pub proof fn admission_key_is_its_parts(a: AdmissionKey, b: AdmissionKey)
    ensures
        a.nanos() == b.nanos() && a.entity_id() == b.entity_id() <==> a == b,
        AdmissionKey::at(a.nanos(), a.entity_id()) == a,
{
    model::admission_time_is_its_nanos(a.admitted_at, AdmissionTime::at(a.nanos()));
    model::admission_time_is_its_nanos(a.admitted_at, b.admitted_at);
}

/// The position made of a reading and an entity has that reading and entity.
pub proof fn admission_key_has_its_parts(nanos: u64, entity: EntityId)
    ensures
        AdmissionKey::at(nanos, entity).nanos() == nanos,
        AdmissionKey::at(nanos, entity).entity_id() == entity,
{
    model::admission_time_has_its_nanos(nanos);
}

/// A record as admission hands it to a store: what it is, and when it was
/// admitted.
#[derive(Debug)]
pub struct Admitted<R> {
    /// The record's identity.
    pub entity: EntityId,
    /// When it was admitted.
    pub admitted_at: AdmissionTime,
    /// The record.
    pub record: R,
}

/// What became of a record that a store was asked to keep.
#[derive(Clone, Copy, Debug, PartialEq, Eq)]
pub enum KeepOutcome {
    /// The record is resident.
    Kept {
        /// How many records were evicted to make room.
        evicted: u64,
    },
    /// A record of the same identity is already resident.
    Duplicate,
    /// The record alone exceeds the byte ceiling.
    Oversized,
    /// No further stream can be kept.
    SeriesCapReached,
    /// The stream identity alone exceeds the byte ceiling.
    IdentityOverCeiling {
        /// The identity's accounted bytes.
        identity_bytes: u64,
    },
}

/// What a store holds.
#[derive(Clone, Copy, Debug, PartialEq, Eq)]
pub struct StoreStats {
    /// Records of all kinds.
    pub resident_records: u64,
    /// Records evicted so far.
    pub total_evictions: u64,
}

/// A metric point with the stream it was admitted under.
#[derive(Clone, Debug, PartialEq, Eq)]
pub struct PointView {
    /// The point.
    pub point: Arc<MetricPoint>,
    /// The stream.
    pub stream: Arc<StreamIdentity>,
}

/// One record of a scan, with the position it was yielded at.
#[derive(Debug)]
pub struct ScanItem<R> {
    /// The record's position in the residency order.
    pub key: AdmissionKey,
    /// The record.
    pub record: R,
}

/// One page of a scan.
#[derive(Debug)]
pub struct ScanPage<R> {
    /// The records, in the residency order.
    pub items: Vec<ScanItem<R>>,
    /// Where the next page starts, when records follow.
    pub cursor: Option<AdmissionKey>,
}

/// One record of a scan of any kind.
#[derive(Debug)]
pub struct Yielded {
    /// The record's position in the residency order.
    pub key: AdmissionKey,
    /// The record.
    pub record: RecordView,
}

/// A scanned span, as a record of any kind.
pub open spec fn span_yielded(item: ScanItem<Arc<Span>>) -> Yielded {
    Yielded { key: item.key, record: RecordView::Span(item.record) }
}

/// A scanned log record, as a record of any kind.
pub open spec fn log_yielded(item: ScanItem<Arc<LogRecord>>) -> Yielded {
    Yielded { key: item.key, record: RecordView::LogRecord(item.record) }
}

/// A scanned metric point, as a record of any kind.
pub open spec fn point_yielded(item: ScanItem<PointView>) -> Yielded {
    Yielded {
        key: item.key,
        record: RecordView::MetricPoint { point: item.record.point, stream: item.record.stream },
    }
}

/// A telemetry store. Queries read it through this trait alone, and promise
/// what they promise of any implementation, well-behaved or not: the relations
/// below say only which answers an implementation may give, and nothing
/// restricts them.
pub trait TelemetryStore {
    /// The records that the store says it holds.
    open spec fn held(&self) -> Seq<Yielded> {
        Seq::empty()
    }

    /// Whether a scan of `kind` that asks for `limit` records after `after`
    /// may answer these records and this cursor.
    open spec fn may_scan(
        &self,
        kind: SignalKind,
        after: Option<AdmissionKey>,
        limit: usize,
        records: Seq<Yielded>,
        cursor: Option<AdmissionKey>,
    ) -> bool {
        true
    }

    /// Whether a lookup of `entity` among the records of `kind` may answer
    /// that it is resident, or that it is not.
    open spec fn may_find(&self, kind: SignalKind, entity: EntityId, resident: bool) -> bool {
        true
    }

    /// Whether a store that is asked to keep this record at this position may
    /// answer with this outcome, and hold `after` then.
    open spec fn may_keep(
        &self,
        key: AdmissionKey,
        record: RecordView,
        outcome: KeepOutcome,
        after: Seq<Yielded>,
    ) -> bool {
        true
    }

    /// Whether a store that is asked to evict what is no longer held at a time
    /// may evict this many, and hold `after` then.
    open spec fn may_evict(&self, now: AdmissionTime, evicted: u64, after: Seq<Yielded>) -> bool {
        true
    }

    /// Keeps a span.
    fn keep_span(&mut self, admitted: Admitted<Arc<Span>>) -> (outcome: KeepOutcome)
        ensures
            old(self).may_keep(
                AdmissionKey::at(admitted.admitted_at@, admitted.entity),
                RecordView::Span(admitted.record),
                outcome,
                final(self).held(),
            ),
    ;

    /// Keeps a log record.
    fn keep_log_record(&mut self, admitted: Admitted<Arc<LogRecord>>) -> (outcome: KeepOutcome)
        ensures
            old(self).may_keep(
                AdmissionKey::at(admitted.admitted_at@, admitted.entity),
                RecordView::LogRecord(admitted.record),
                outcome,
                final(self).held(),
            ),
    ;

    /// Keeps a metric point under its stream.
    fn keep_metric_point(
        &mut self,
        admitted: Admitted<Arc<MetricPoint>>,
        stream: Arc<StreamIdentity>,
    ) -> (outcome: KeepOutcome)
        ensures
            old(self).may_keep(
                AdmissionKey::at(admitted.admitted_at@, admitted.entity),
                RecordView::MetricPoint { point: admitted.record, stream },
                outcome,
                final(self).held(),
            ),
    ;

    /// The resident span with this identity.
    fn span(&self, entity: EntityId) -> (found: Option<Arc<Span>>)
        ensures
            self.may_find(SignalKind::Spans, entity, found is Some),
    ;

    /// The resident log record with this identity.
    fn log_record(&self, entity: EntityId) -> (found: Option<Arc<LogRecord>>)
        ensures
            self.may_find(SignalKind::LogRecords, entity, found is Some),
    ;

    /// The resident metric point with this identity.
    fn metric_point(&self, entity: EntityId) -> (found: Option<PointView>)
        ensures
            self.may_find(SignalKind::MetricPoints, entity, found is Some),
    ;

    /// At most `limit` spans after `after`.
    fn scan_spans(&self, after: Option<AdmissionKey>, limit: usize) -> (page: ScanPage<Arc<Span>>)
        ensures
            self.may_scan(
                SignalKind::Spans,
                after,
                limit,
                page.items@.map_values(|item: ScanItem<Arc<Span>>| span_yielded(item)),
                page.cursor,
            ),
    ;

    /// At most `limit` log records after `after`.
    fn scan_log_records(&self, after: Option<AdmissionKey>, limit: usize) -> (page: ScanPage<
        Arc<LogRecord>,
    >)
        ensures
            self.may_scan(
                SignalKind::LogRecords,
                after,
                limit,
                page.items@.map_values(|item: ScanItem<Arc<LogRecord>>| log_yielded(item)),
                page.cursor,
            ),
    ;

    /// At most `limit` metric points after `after`.
    fn scan_metric_points(&self, after: Option<AdmissionKey>, limit: usize) -> (page: ScanPage<
        PointView,
    >)
        ensures
            self.may_scan(
                SignalKind::MetricPoints,
                after,
                limit,
                page.items@.map_values(|item: ScanItem<PointView>| point_yielded(item)),
                page.cursor,
            ),
    ;

    /// Evicts what the retention law no longer holds at `now`; says how many.
    fn enforce_retention(&mut self, now: AdmissionTime) -> (evicted: u64)
        ensures
            old(self).may_evict(now, evicted, final(self).held()),
    ;

    /// Takes note of how many admissions were anomalous so far.
    fn observe_admission_anomalies(&mut self, total: u64);

    /// What the store holds.
    fn stats(&self) -> StoreStats;

    /// The name of the storage mode.
    fn mode_name(&self) -> &'static str;
}

/// A position says what it was made of.
pub proof fn a_position_says_what_it_was_made_of(
    admitted_at: AdmissionTime,
    entity: EntityId,
    key: AdmissionKey,
    time: AdmissionTime,
    who: EntityId,
)
    requires
        call_ensures(AdmissionKey::new, (admitted_at, entity), key),
        call_ensures(AdmissionKey::admitted_at, (&key,), time),
        call_ensures(AdmissionKey::entity, (&key,), who),
    ensures
        time == admitted_at,
        who == entity,
{
    model::admission_time_is_its_nanos(time, admitted_at);
}

/// A scanned record of each kind is that record at its own position, and a metric
/// point keeps its stream.
pub proof fn a_scanned_record_is_itself(
    span: ScanItem<Arc<Span>>,
    log: ScanItem<Arc<LogRecord>>,
    point: ScanItem<PointView>,
)
    ensures
        span_yielded(span).key == span.key,
        span_yielded(span).record == RecordView::Span(span.record),
        log_yielded(log).key == log.key,
        log_yielded(log).record == RecordView::LogRecord(log.record),
        point_yielded(point).key == point.key,
        point_yielded(point).record == (RecordView::MetricPoint {
            point: point.record.point,
            stream: point.record.stream,
        }),
{
}

}
