//! Pages, continuations and budgets, over stores that follow the scan law and
//! stores that do not.

use runtime_trail::budget::QueryBudget;
use runtime_trail::cursor::{CursorError, CursorPayload};
use runtime_trail::engine::{
    records, records_leased, walk_records, QueryError, RecordView, RecordsQuery, SignalKind,
};
use runtime_trail::filters::{
    LogFilters, MetricFilters, ScopeFilter, ServiceFilter, SeverityFilter, SpanFilters,
    TimeRangeFilter,
};
use runtime_trail::lease::{InvestigationId, SnapshotLease};
use runtime_trail::model::{
    AdmissionTime, AssignedId, Attributes, EntityId, InstrumentationScope, LogRecord, MetricNumber,
    MetricPoint, NumberPoint, Resource, Serial, SeverityNumber, Span, SpanId, StreamIdentity,
    TraceContext, TraceId, AnyValue,
};
use runtime_trail::result::{
    CoverageEntry, Dimension, Magnitude, Page, PartOutcome, Truncation, TruncationPoint,
};
use runtime_trail::storage::{
    AdmissionKey, Admitted, KeepOutcome, PointView, ScanItem, ScanPage, StoreStats, TelemetryStore,
};
use std::collections::{BTreeMap, HashMap};
use std::ops::Bound;
use std::sync::atomic::{AtomicUsize, Ordering};
use std::sync::Arc;
use std::time::{Duration, Instant};

/// Evidence bytes of a fixture: a fixed part, and its text.
fn sized(text: &str) -> usize {
    64 + text.len()
}

fn at(nano: u64) -> AdmissionTime {
    AdmissionTime::from_unix_nano(nano)
}

fn assigned(serial: u64) -> EntityId {
    EntityId::Assigned(AssignedId::from_serial(
        Serial::new(serial).expect("fixture serials are nonzero"),
    ))
}

fn span_entity(trace: u8, span_byte: u8) -> EntityId {
    EntityId::Span {
        trace_id: TraceId::from_bytes([trace; 16]),
        span_id: SpanId::from_bytes([span_byte; 8]),
    }
}

fn open_budget() -> QueryBudget {
    budget_with(1_000, 1 << 40, 10_000)
}

fn budget_with(results: u64, bytes: u64, scan: u64) -> QueryBudget {
    QueryBudget::new(Duration::from_secs(10), results, bytes, scan, 4_096)
}

fn five_spans() -> FixtureStore {
    span_store(5)
}

fn span_store(count: u8) -> FixtureStore {
    let mut store = FixtureStore::empty();
    for index in 1_u8..=count {
        keep_span(
            &mut store,
            u64::from(index) * 100,
            span_entity(index, index),
            fixture_span(index, index, &format!("span-{index}")),
        );
    }
    store
}

fn keep_span(store: &mut FixtureStore, nano: u64, entity: EntityId, span: Span) {
    let outcome = store.keep_span(Admitted {
        entity,
        admitted_at: at(nano),
        record: Arc::new(span),
    });
    assert!(matches!(outcome, KeepOutcome::Kept { evicted: 0 }));
}

fn keep_log(store: &mut FixtureStore, nano: u64, entity: EntityId, record: LogRecord) {
    let outcome = store.keep_log_record(Admitted {
        entity,
        admitted_at: at(nano),
        record: Arc::new(record),
    });
    assert!(matches!(outcome, KeepOutcome::Kept { evicted: 0 }));
}

fn keep_point(
    store: &mut FixtureStore,
    nano: u64,
    entity: EntityId,
    point: MetricPoint,
    stream: StreamIdentity,
) {
    let outcome = store.keep_metric_point(
        Admitted {
            entity,
            admitted_at: at(nano),
            record: Arc::new(point),
        },
        Arc::new(stream),
    );
    assert!(matches!(outcome, KeepOutcome::Kept { evicted: 0 }));
}

fn degraded_of(page: &Page<RecordView>) -> &Truncation {
    let [PartOutcome::Degraded { truncation }] = &page.execution.parts[..] else {
        panic!("the page degrades");
    };
    truncation
}

fn fresh_position(payload: &CursorPayload) -> u64 {
    payload.position()
}

fn span_entity_of(view: &RecordView) -> Option<EntityId> {
    match view {
        RecordView::Span(span) => Some(EntityId::Span {
            trace_id: span.context.trace_id,
            span_id: span.context.span_id,
        }),
        _ => None,
    }
}

fn log_body_of(view: &RecordView) -> Option<&str> {
    match view {
        RecordView::LogRecord(record) => match &record.body {
            Some(AnyValue::String(text)) => Some(text.as_str()),
            _ => None,
        },
        _ => None,
    }
}

fn point_value_of(view: &RecordView) -> Option<i64> {
    match view {
        RecordView::MetricPoint { point, .. } => match point.as_ref() {
            MetricPoint::Number(number) => match number.value {
                MetricNumber::Int(value) => Some(value),
                MetricNumber::Double(_) => None,
            },
            _ => None,
        },
        _ => None,
    }
}

fn stream_name_of(view: &RecordView) -> Option<&str> {
    match view {
        RecordView::MetricPoint { stream, .. } => Some(stream.name.as_str()),
        _ => None,
    }
}

struct FixtureShelf<R> {
    by_key: BTreeMap<AdmissionKey, Arc<R>>,
    by_entity: HashMap<EntityId, AdmissionKey>,
}

impl<R> FixtureShelf<R> {
    fn insert(&mut self, admitted: Admitted<Arc<R>>) {
        let key = AdmissionKey::new(admitted.admitted_at, admitted.entity);
        self.by_entity.insert(admitted.entity, key);
        self.by_key.insert(key, admitted.record);
    }

    fn get(&self, entity: EntityId) -> Option<Arc<R>> {
        let key = self.by_entity.get(&entity)?;
        self.by_key.get(key).cloned()
    }

    fn remove(&mut self, entity: EntityId) -> bool {
        let Some(key) = self.by_entity.remove(&entity) else {
            return false;
        };
        self.by_key.remove(&key).is_some()
    }

    fn len(&self) -> usize {
        self.by_key.len()
    }

    fn scan(&self, after: Option<AdmissionKey>, limit: usize) -> ScanPage<Arc<R>> {
        if limit == 0 {
            return ScanPage {
                items: Vec::new(),
                cursor: None,
            };
        }
        let records: Box<dyn Iterator<Item = (AdmissionKey, &Arc<R>)> + '_> = match after {
            Some(after) => Box::new(
                self.by_key
                    .range((Bound::Excluded(after), Bound::Unbounded))
                    .map(|(key, record)| (*key, record)),
            ),
            None => Box::new(self.by_key.iter().map(|(key, record)| (*key, record))),
        };
        let mut items = Vec::new();
        let mut cursor = None;
        let mut last_in_page = None;
        for (key, record) in records {
            if items.len() == limit {
                cursor = last_in_page;
                break;
            }
            items.push(ScanItem {
                key,
                record: Arc::clone(record),
            });
            last_in_page = Some(key);
        }
        ScanPage { items, cursor }
    }
}

struct StoredPoint {
    point: Arc<MetricPoint>,
    stream: Arc<StreamIdentity>,
}

struct FixtureStore {
    spans: FixtureShelf<Span>,
    logs: FixtureShelf<LogRecord>,
    points: FixtureShelf<StoredPoint>,
}

impl FixtureStore {
    fn empty() -> Self {
        Self {
            spans: FixtureShelf {
                by_key: BTreeMap::new(),
                by_entity: HashMap::new(),
            },
            logs: FixtureShelf {
                by_key: BTreeMap::new(),
                by_entity: HashMap::new(),
            },
            points: FixtureShelf {
                by_key: BTreeMap::new(),
                by_entity: HashMap::new(),
            },
        }
    }

    fn evict(&mut self, entity: EntityId) -> bool {
        self.spans.remove(entity) || self.logs.remove(entity) || self.points.remove(entity)
    }
}

impl TelemetryStore for FixtureStore {
    fn keep_span(&mut self, admitted: Admitted<Arc<Span>>) -> KeepOutcome {
        if self.spans.get(admitted.entity).is_some() {
            return KeepOutcome::Duplicate;
        }
        self.spans.insert(admitted);
        KeepOutcome::Kept { evicted: 0 }
    }

    fn keep_log_record(&mut self, admitted: Admitted<Arc<LogRecord>>) -> KeepOutcome {
        if self.logs.get(admitted.entity).is_some() {
            return KeepOutcome::Duplicate;
        }
        self.logs.insert(admitted);
        KeepOutcome::Kept { evicted: 0 }
    }

    fn keep_metric_point(
        &mut self,
        admitted: Admitted<Arc<MetricPoint>>,
        stream: Arc<StreamIdentity>,
    ) -> KeepOutcome {
        if self.points.get(admitted.entity).is_some() {
            return KeepOutcome::Duplicate;
        }
        self.points.insert(Admitted {
            entity: admitted.entity,
            admitted_at: admitted.admitted_at,
            record: Arc::new(StoredPoint {
                point: admitted.record,
                stream,
            }),
        });
        KeepOutcome::Kept { evicted: 0 }
    }

    fn span(&self, entity: EntityId) -> Option<Arc<Span>> {
        self.spans.get(entity)
    }

    fn log_record(&self, entity: EntityId) -> Option<Arc<LogRecord>> {
        self.logs.get(entity)
    }

    fn metric_point(&self, entity: EntityId) -> Option<PointView> {
        let stored = self.points.get(entity)?;
        Some(PointView {
            point: Arc::clone(&stored.point),
            stream: Arc::clone(&stored.stream),
        })
    }

    fn scan_spans(&self, after: Option<AdmissionKey>, limit: usize) -> ScanPage<Arc<Span>> {
        self.spans.scan(after, limit)
    }

    fn scan_log_records(
        &self,
        after: Option<AdmissionKey>,
        limit: usize,
    ) -> ScanPage<Arc<LogRecord>> {
        self.logs.scan(after, limit)
    }

    fn scan_metric_points(
        &self,
        after: Option<AdmissionKey>,
        limit: usize,
    ) -> ScanPage<PointView> {
        let page = self.points.scan(after, limit);
        let items = page
            .items
            .into_iter()
            .map(|item| ScanItem {
                key: item.key,
                record: PointView {
                    point: Arc::clone(&item.record.point),
                    stream: Arc::clone(&item.record.stream),
                },
            })
            .collect();
        ScanPage {
            items,
            cursor: page.cursor,
        }
    }

    fn enforce_retention(&mut self, _now: AdmissionTime) -> u64 {
        // The fixture owns no ceilings; tests evict directly.
        0
    }

    fn observe_admission_anomalies(&mut self, _total: u64) {}

    fn stats(&self) -> StoreStats {
        StoreStats {
            resident_records: u64::try_from(self.spans.len() + self.logs.len() + self.points.len())
                .unwrap_or(u64::MAX),
            total_evictions: 0,
        }
    }

    fn mode_name(&self) -> &'static str {
        "fixture"
    }
}

fn fixture_span(trace: u8, span_byte: u8, name: &str) -> Span {
    Span {
        context: TraceContext {
            trace_id: TraceId::from_bytes([trace; 16]),
            span_id: SpanId::from_bytes([span_byte; 8]),
        },
        parent_span_id: None,
        name: name.to_owned(),
        start_time_unix_nano: 10,
        end_time_unix_nano: Some(20),
        resource: Arc::new(fixture_resource(None)),
        scope: Arc::new(fixture_scope("", None)),
        accounted_size: sized(name),
    }
}

fn fixture_log(body: &str) -> LogRecord {
    LogRecord {
        timestamp_unix_nano: Some(1),
        observed_timestamp_unix_nano: Some(2),
        severity_number: None,
        body: Some(AnyValue::String(body.to_owned())),
        resource: Arc::new(fixture_resource(None)),
        scope: Arc::new(fixture_scope("", None)),
        trace_id: None,
        span_id: None,
        accounted_size: sized(body),
    }
}

fn fixture_stream(name: &str) -> StreamIdentity {
    StreamIdentity {
        resource: fixture_resource(None),
        scope: fixture_scope("", None),
        name: name.to_owned(),
    }
}

fn fixture_point(value: i64) -> MetricPoint {
    MetricPoint::Number(NumberPoint {
        time_unix_nano: 1,
        value: MetricNumber::Int(value),
        accounted_size: sized(""),
    })
}

fn service_store() -> FixtureStore {
    let scope = fixture_scope("scope", None);
    let mut store = FixtureStore::empty();
    let services = ["checkout", "payments", "checkout", "payments", "checkout"];
    for (index, service) in services.iter().enumerate() {
        let index = u8::try_from(index + 1).expect("fixture indices fit");
        keep_span(
            &mut store,
            u64::from(index) * 100,
            span_entity(index, index),
            service_span(index, index, Some(service), &scope, u64::from(index) * 10),
        );
    }
    store
}

fn checkout_query() -> RecordsQuery {
    RecordsQuery::spans(SpanFilters {
        service: Some(ServiceFilter::new("checkout")),
        time_range: None,
        scope: None,
    })
}

fn fixture_resource(service: Option<&str>) -> Resource {
    let attributes = match service {
        Some(name) => Attributes::from_pairs(vec![(
            "service.name".to_owned(),
            AnyValue::String(name.to_owned()),
        )])
        .expect("one key"),
        None => Attributes::empty(),
    };
    Resource { attributes }
}

fn fixture_scope(name: &str, version: Option<&str>) -> InstrumentationScope {
    InstrumentationScope {
        name: name.to_owned(),
        version: version.map(str::to_owned),
    }
}

fn service_span(
    trace: u8,
    span_byte: u8,
    service: Option<&str>,
    scope: &InstrumentationScope,
    start: u64,
) -> Span {
    let mut span = fixture_span(trace, span_byte, "filtered-span");
    span.start_time_unix_nano = start;
    span.resource = Arc::new(fixture_resource(service));
    span.scope = Arc::new(scope.clone());
    span
}

fn service_log(
    service: Option<&str>,
    scope: &InstrumentationScope,
    timestamp: Option<u64>,
    observed: Option<u64>,
    severity: Option<SeverityNumber>,
    body: &str,
) -> LogRecord {
    let mut record = fixture_log(body);
    record.timestamp_unix_nano = timestamp;
    record.observed_timestamp_unix_nano = observed;
    record.severity_number = severity;
    record.resource = Arc::new(fixture_resource(service));
    record.scope = Arc::new(scope.clone());
    record
}

fn service_point(
    service: Option<&str>,
    scope: &InstrumentationScope,
    time: u64,
    value: i64,
) -> (MetricPoint, StreamIdentity) {
    let mut stream = fixture_stream("filtered-stream");
    stream.resource = fixture_resource(service);
    stream.scope = scope.clone();
    (
        MetricPoint::Number(NumberPoint {
            time_unix_nano: time,
            value: MetricNumber::Int(value),
            accounted_size: sized(""),
        }),
        stream,
    )
}

#[test]
fn identical_inputs_produce_identical_pages_across_independent_runs() {
    fn run(store: &FixtureStore) -> Page<RecordView> {
        records(
            store,
            &RecordsQuery::new(SignalKind::Spans),
            budget_with(3, 1 << 40, 10_000),
            None,
        )
        .expect("the query answers")
    }

    let first_store = five_spans();
    let second_store = five_spans();
    let first = run(&first_store);
    let second = run(&first_store);
    let third = run(&second_store);
    assert_eq!(first, second, "two runs on one store assemble one page");
    assert_eq!(first, third, "a second, identically built store too");

    let entities: Vec<EntityId> = first
        .items
        .iter()
        .map(|view| span_entity_of(view).expect("a span page"))
        .collect();
    assert_eq!(
        entities,
        vec![span_entity(1, 1), span_entity(2, 2), span_entity(3, 3)],
        "the page carries the first three records in residency order"
    );
    let cursor = first
        .next_cursor
        .as_deref()
        .expect("a truncated page continues");
    let payload = CursorPayload::decode(cursor).expect("the engine's own cursor");
    assert_eq!(
        payload.position(),
        300_u64,
        "the cursor's position is the anchor's admission time, not an ordinal"
    );
    assert_eq!(payload.last_entity(), span_entity(3, 3));
    assert_eq!(
        payload.snapshot(),
        AdmissionKey::new(at(500), span_entity(5, 5)),
        "the minted frontier is the pulled batch's tail: the kind's last record"
    );
}

#[test]
fn each_kind_page_is_totally_ordered_with_entity_ties_broken() {
    let mut store = FixtureStore::empty();
    // Every record admits at the same nanosecond: the entity id
    // decides each page's whole order.
    keep_span(
        &mut store,
        100,
        span_entity(1, 1),
        fixture_span(1, 1, "s-one"),
    );
    keep_span(
        &mut store,
        100,
        span_entity(2, 1),
        fixture_span(2, 1, "s-two"),
    );
    keep_span(
        &mut store,
        100,
        span_entity(1, 2),
        fixture_span(1, 2, "s-three"),
    );
    keep_log(&mut store, 100, assigned(3), fixture_log("log-three"));
    keep_log(&mut store, 100, assigned(1), fixture_log("log-one"));
    keep_point(
        &mut store,
        100,
        assigned(2),
        fixture_point(2),
        fixture_stream("metric-two"),
    );
    keep_point(
        &mut store,
        100,
        assigned(1),
        fixture_point(1),
        fixture_stream("metric-one"),
    );

    let spans = records(
        &store,
        &RecordsQuery::new(SignalKind::Spans),
        open_budget(),
        None,
    )
    .expect("the query answers");
    let span_entities: Vec<EntityId> = spans
        .items
        .iter()
        .map(|view| span_entity_of(view).expect("a span page"))
        .collect();
    assert_eq!(
        span_entities,
        vec![span_entity(1, 1), span_entity(1, 2), span_entity(2, 1)],
        "spans tie-break by trace bytes, then span bytes"
    );
    let logs = records(
        &store,
        &RecordsQuery::new(SignalKind::LogRecords),
        open_budget(),
        None,
    )
    .expect("the query answers");
    let log_bodies: Vec<&str> = logs
        .items
        .iter()
        .map(|view| log_body_of(view).expect("a log page"))
        .collect();
    assert_eq!(
        log_bodies,
        vec!["log-one", "log-three"],
        "logs tie-break by assigned serial"
    );
    let points = records(
        &store,
        &RecordsQuery::new(SignalKind::MetricPoints),
        open_budget(),
        None,
    )
    .expect("the query answers");
    let point_values: Vec<i64> = points
        .items
        .iter()
        .map(|view| point_value_of(view).expect("a point page"))
        .collect();
    assert_eq!(
        point_values,
        vec![1, 2],
        "points tie-break by assigned serial"
    );
    for page in [&spans, &logs, &points] {
        assert_eq!(page.execution.parts, vec![PartOutcome::Complete]);
        assert!(page.next_cursor.is_none());
    }
}

#[test]
fn pagination_walks_a_set_to_exhaustion_without_repeat_or_loss() {
    let store = five_spans();
    let query = RecordsQuery::new(SignalKind::Spans);
    let mut cursor: Option<Vec<u8>> = None;
    let mut seen: Vec<EntityId> = Vec::new();
    let mut continuations = 0;
    loop {
        let presented = cursor.is_some();
        let page = records(
            &store,
            &query,
            budget_with(2, 1 << 40, 10_000),
            cursor.as_deref(),
        )
        .expect("the query answers");
        seen.extend(
            page.items
                .iter()
                .map(|view| span_entity_of(view).expect("a span page")),
        );
        if let Some(next) = page.next_cursor.clone() {
            cursor = Some(next);
            continuations += 1;
            // A page that was handed a cursor is bounded by the
            // snapshot that cursor carries, and names it; the first
            // page mints the boundary instead — it travels in the
            // cursor it minted.
            if presented {
                assert!(
                    page.execution
                        .coverage
                        .entries
                        .iter()
                        .any(|entry| matches!(entry, CoverageEntry::SnapshotBoundary { .. })),
                    "every continuation names its snapshot boundary"
                );
            }
        } else {
            assert_eq!(page.execution.parts, vec![PartOutcome::Complete]);
            break;
        }
        assert!(continuations < 10, "the walk terminates");
    }
    assert_eq!(
        continuations, 2,
        "five records at two per page walk three pages"
    );
    assert_eq!(
        seen,
        vec![
            span_entity(1, 1),
            span_entity(2, 2),
            span_entity(3, 3),
            span_entity(4, 4),
            span_entity(5, 5),
        ],
        "every record appears exactly once, in residency order"
    );
}

#[test]
fn a_cursor_presented_under_another_query_is_an_error() {
    let store = five_spans();
    let first = records(
        &store,
        &RecordsQuery::new(SignalKind::Spans),
        budget_with(2, 1 << 40, 10_000),
        None,
    )
    .expect("the query answers");
    let cursor = first.next_cursor.expect("a truncated page continues");

    let wrong_query = records(
        &store,
        &RecordsQuery::new(SignalKind::LogRecords),
        budget_with(2, 1 << 40, 10_000),
        Some(&cursor),
    )
    .expect_err("a foreign query must not continue the cursor");
    assert_eq!(
        wrong_query,
        QueryError::Cursor(CursorError::FingerprintMismatch)
    );

    let garbage = records(
        &store,
        &RecordsQuery::new(SignalKind::Spans),
        budget_with(2, 1 << 40, 10_000),
        Some(&[9; 10]),
    )
    .expect_err("bytes that decode to nothing are an error");
    assert_eq!(garbage, QueryError::Cursor(CursorError::Malformed));
}

#[test]
fn records_admitted_after_the_frontier_stay_outside_every_later_page() {
    let mut store = five_spans();
    let first = records(
        &store,
        &RecordsQuery::new(SignalKind::Spans),
        budget_with(2, 1 << 40, 10_000),
        None,
    )
    .expect("the query answers");
    let cursor = first.next_cursor.expect("a truncated page continues");

    keep_span(
        &mut store,
        600,
        span_entity(6, 6),
        fixture_span(6, 6, "span-6"),
    );
    keep_span(
        &mut store,
        700,
        span_entity(7, 7),
        fixture_span(7, 7, "span-7"),
    );

    let second = records(
        &store,
        &RecordsQuery::new(SignalKind::Spans),
        open_budget(),
        Some(&cursor),
    )
    .expect("the query answers");
    let entities: Vec<EntityId> = second
        .items
        .iter()
        .map(|view| span_entity_of(view).expect("a span page"))
        .collect();
    assert_eq!(
        entities,
        vec![span_entity(3, 3), span_entity(4, 4), span_entity(5, 5),],
        "the page walks exactly what the snapshot held — everything \
         pulled before the frontier, and none of what was admitted \
         after it",
    );
    assert_eq!(second.execution.parts, vec![PartOutcome::Complete]);
    assert_eq!(
        second.execution.coverage.entries,
        vec![CoverageEntry::SnapshotBoundary {
            admission: AdmissionKey::new(at(500), span_entity(5, 5)),
        }],
        "the boundary names the first page's pulled frontier"
    );
    assert!(second.next_cursor.is_none());
}

#[test]
fn an_evicted_anchor_is_named_as_a_gap_with_its_first_resident_successor() {
    let mut store = five_spans();
    let first = records(
        &store,
        &RecordsQuery::new(SignalKind::Spans),
        budget_with(2, 1 << 40, 10_000),
        None,
    )
    .expect("the query answers");
    let cursor = first.next_cursor.expect("a truncated page continues");

    assert!(store.evict(span_entity(2, 2)), "the anchor was resident");

    let second = records(
        &store,
        &RecordsQuery::new(SignalKind::Spans),
        open_budget(),
        Some(&cursor),
    )
    .expect("the query answers");
    let entities: Vec<EntityId> = second
        .items
        .iter()
        .map(|view| span_entity_of(view).expect("a span page"))
        .collect();
    assert_eq!(
        entities,
        vec![span_entity(3, 3), span_entity(4, 4), span_entity(5, 5),],
        "the walk resumes exactly, skipping nothing that is resident"
    );
    assert_eq!(
        second.execution.coverage.entries,
        vec![
            CoverageEntry::SnapshotBoundary {
                admission: AdmissionKey::new(at(500), span_entity(5, 5)),
            },
            CoverageEntry::EvictionGap {
                after: span_entity(2, 2),
                before: span_entity(3, 3),
            },
        ],
        "the gap names the evicted anchor and its first resident successor"
    );
    assert!(second.next_cursor.is_none());
}

#[test]
fn a_byte_ceiling_names_the_true_omission_count_and_anchors_behind_it() {
    let mut store = FixtureStore::empty();
    let mut sizes = Vec::new();
    for index in 1_u8..=5 {
        let name = match index {
            1 => "a".repeat(40),
            2 => "b".repeat(40),
            3 => "c".repeat(80),
            4 => "d".repeat(40),
            _ => "e".repeat(100),
        };
        let span = fixture_span(index, index, &name);
        sizes.push(u64::try_from(span.accounted_size()).expect("sizes fit"));
        keep_span(
            &mut store,
            u64::from(index) * 100,
            span_entity(index, index),
            span,
        );
    }
    // The ceiling fits the first two records and stops one byte short
    // of the third: the page includes two, then counts the remainder.
    let ceiling = sizes[0] + sizes[1] + sizes[2] - 1;
    let page = records(
        &store,
        &RecordsQuery::new(SignalKind::Spans),
        budget_with(1_000, ceiling, 10_000),
        None,
    )
    .expect("the query answers");

    let truncation = degraded_of(&page);
    assert_eq!(truncation.dimension, Dimension::Bytes);
    assert_eq!(
        truncation.omitted, 2,
        "records three and five do not fit; four does"
    );
    let entities: Vec<EntityId> = page
        .items
        .iter()
        .map(|view| span_entity_of(view).expect("a span page"))
        .collect();
    assert_eq!(entities, vec![span_entity(1, 1), span_entity(2, 2)]);
    let cursor = page.next_cursor.as_deref().expect("the page continues");
    let payload = CursorPayload::decode(cursor).expect("the engine's own cursor");
    assert_eq!(
        payload.position(),
        200_u64,
        "the cursor anchors at the last included record"
    );
    assert_eq!(payload.last_entity(), span_entity(2, 2));
    assert!(
        page.execution.coverage.entries.is_empty(),
        "a counted omission needs no coverage entry"
    );
}

#[test]
fn a_dead_deadline_refuses_the_first_page_before_any_examination() {
    let store = five_spans();
    let page = records(
        &store,
        &RecordsQuery::new(SignalKind::Spans),
        QueryBudget::new(Duration::ZERO, 1_000, 1 << 40, 10_000, 4_096),
        None,
    )
    .expect("the query answers");

    assert!(page.items.is_empty());
    assert!(page.next_cursor.is_none());
    let [PartOutcome::Refused(refusal)] = &page.execution.parts[..] else {
        panic!("a dead first page refuses");
    };
    assert_eq!(refusal.dimension, Dimension::Deadline);
    assert_eq!(refusal.limit, Magnitude::Duration(Duration::ZERO));
    assert!(
        matches!(refusal.observed, Magnitude::Duration(_)),
        "the observed spend is a duration, not a count"
    );
}

#[test]
fn an_empty_kind_completes_with_an_empty_page_and_no_cursor() {
    let store = FixtureStore::empty();
    let page = records(
        &store,
        &RecordsQuery::new(SignalKind::Spans),
        open_budget(),
        None,
    )
    .expect("the query answers");
    assert!(page.items.is_empty());
    assert!(page.next_cursor.is_none());
    assert_eq!(page.execution.parts, vec![PartOutcome::Complete]);
    assert!(page.execution.coverage.entries.is_empty());

    let mut logs_only = FixtureStore::empty();
    keep_log(&mut logs_only, 100, assigned(1), fixture_log("log-one"));
    let spans_of_logs = records(
        &logs_only,
        &RecordsQuery::new(SignalKind::Spans),
        open_budget(),
        None,
    )
    .expect("the query answers");
    assert!(spans_of_logs.items.is_empty());
    assert_eq!(spans_of_logs.execution.parts, vec![PartOutcome::Complete]);
    assert!(spans_of_logs.next_cursor.is_none());
}

#[test]
fn a_counting_walk_cut_short_is_uncounted_and_coverage_names_it() {
    let mut store = FixtureStore::empty();
    let mut sizes = Vec::new();
    for index in 1_u8..=4 {
        let name = match index {
            1 => "a".repeat(40),
            2 => "b".repeat(40),
            3 => "c".repeat(80),
            _ => "d".repeat(40),
        };
        let span = fixture_span(index, index, &name);
        sizes.push(u64::try_from(span.accounted_size()).expect("sizes fit"));
        keep_span(
            &mut store,
            u64::from(index) * 100,
            span_entity(index, index),
            span,
        );
    }
    // The byte ceiling fits two records and stops one byte short of
    // the third; the scan ceiling allows exactly three examinations,
    // so the counting walk is cut at the fourth record.
    let page = records(
        &store,
        &RecordsQuery::new(SignalKind::Spans),
        budget_with(1_000, sizes[0] + sizes[1] + sizes[2] - 1, 3),
        None,
    )
    .expect("the query answers");

    let truncation = degraded_of(&page);
    assert_eq!(truncation.dimension, Dimension::Bytes);
    assert_eq!(
        truncation.omitted, 1,
        "e3 was a confirmed byte-omission before the counting walk was \
         cut — the count reports the confirmed fragment, never zero"
    );
    assert_eq!(
        page.execution.coverage.entries,
        vec![CoverageEntry::UncountedTail {
            after: span_entity(3, 3),
            dimension: Dimension::Scan,
        }],
        "coverage names where the counting walk stopped"
    );
    let entities: Vec<EntityId> = page
        .items
        .iter()
        .map(|view| span_entity_of(view).expect("a span page"))
        .collect();
    assert_eq!(entities, vec![span_entity(1, 1), span_entity(2, 2)]);
    let cursor = page.next_cursor.as_deref().expect("the page continues");
    let payload = CursorPayload::decode(cursor).expect("the engine's own cursor");
    assert_eq!(payload.last_entity(), span_entity(2, 2));
}

#[test]
fn a_byte_ceiling_count_survives_a_scan_cut_in_a_continuation() {
    let store = five_spans();
    let query = RecordsQuery::new(SignalKind::Spans);
    let first = records(&store, &query, budget_with(2, 1 << 40, 10_000), None)
        .expect("the query answers");
    let cursor = first.next_cursor.expect("a truncated page continues");

    // Byte ceiling 1: below every span's evidence, so the counting walk
    // opens at e3. Scan ceiling 2: e3 and e4 are examined and counted,
    // and the stop is the refusal of e5's charge.
    let second = records(&store, &query, budget_with(1_000, 1, 2), Some(&cursor))
        .expect("the query answers");
    assert!(second.items.is_empty());
    let truncation = degraded_of(&second);
    assert_eq!(
        truncation.dimension,
        Dimension::Bytes,
        "the omission stays byte-dimensional — the byte ceiling is what \
         the records would not fit"
    );
    assert_eq!(
        truncation.omitted, 2,
        "the count the walk had confirmed before the cut survives"
    );
    assert_eq!(
        second.execution.coverage.entries,
        vec![
            CoverageEntry::SnapshotBoundary {
                admission: AdmissionKey::new(at(500), span_entity(5, 5)),
            },
            CoverageEntry::UncountedTail {
                after: span_entity(4, 4),
                dimension: Dimension::Scan,
            },
        ],
        "the uncounted tail names the last counted record and the scan stop"
    );
}

#[test]
fn a_dead_continuation_refuses_when_nothing_was_examined() {
    let store = five_spans();
    let first = records(
        &store,
        &RecordsQuery::new(SignalKind::Spans),
        budget_with(2, 1 << 40, 10_000),
        None,
    )
    .expect("the query answers");
    let cursor = first.next_cursor.expect("a truncated page continues");

    let second = records(
        &store,
        &RecordsQuery::new(SignalKind::Spans),
        QueryBudget::new(Duration::ZERO, 1_000, 1 << 40, 10_000, 4_096),
        Some(&cursor),
    )
    .expect("the query answers");

    assert!(second.items.is_empty());
    // The continuation has no cursor to offer — the budget has no
    // scan work to do, so nothing is a truthful continuation.
    assert!(
        second.next_cursor.is_none(),
        "a refused continuation offers no cursor — the budget is spent"
    );
    // The refusal is the honest shape, identical in structure to a
    // deadline-dead first page: it names the dimension, the limit and
    // the observed spend.
    let [PartOutcome::Refused(refusal)] = &second.execution.parts[..] else {
        panic!("a dead continuation refuses, not degrades");
    };
    assert_eq!(refusal.dimension, Dimension::Deadline);
    assert_eq!(
        refusal.limit,
        Magnitude::Duration(Duration::ZERO),
        "the admitted deadline was zero"
    );
    assert!(
        matches!(refusal.observed, Magnitude::Duration(_)),
        "the observed spend is a duration"
    );
    assert_eq!(
        second.execution.coverage.entries,
        vec![CoverageEntry::SnapshotBoundary {
            admission: AdmissionKey::new(at(500), span_entity(5, 5)),
        }],
        "the snapshot boundary is still named"
    );
}

#[test]
fn an_examined_continuation_cut_by_scan_mints_a_fresh_continuation_cursor() {
    let store = five_spans();
    let query = RecordsQuery::new(SignalKind::Spans);
    let first = records(&store, &query, budget_with(2, 1 << 40, 10_000), None)
        .expect("the query answers");
    let cursor = first.next_cursor.expect("a truncated page continues");

    // Beyond the ceiling, this continuation WOULD include more. First
    // page minted at e2, snapshot e5. The walk resumes from e2
    // strictly past with only one scan unit: it examines and includes
    // e3, then the charge to examine e4 is refused. The stop anchors
    // at the last *included* record (e3), which is past the presented
    // anchor — no room for an echo that would loop forever, and the
    // next page resumes losslessly after e3.
    let second = records(
        &store,
        &query,
        budget_with(1_000, 1 << 40, 1),
        Some(&cursor),
    )
    .expect("the query answers");
    let entities: Vec<EntityId> = second
        .items
        .iter()
        .map(|view| span_entity_of(view).expect("a span page"))
        .collect();
    assert_eq!(
        entities,
        vec![span_entity(3, 3)],
        "the one record the scan allowance bought was examined and included"
    );
    let truncation = degraded_of(&second);
    assert_eq!(
        truncation.dimension,
        Dimension::Scan,
        "the scan ceiling is what cut this continuation"
    );
    // The truncated position is not a blank echo: it is a cursor minted
    // from the anchor the walk actually reached before the ceiling died.
    let fresh = second.next_cursor.as_deref().expect("a minted cursor");
    assert_ne!(
        fresh,
        cursor.as_slice(),
        "the continuation's fresh cursor is not a byte-for-byte echo of \
         the presented cursor — the walk moved at least one record"
    );
    let payload = CursorPayload::decode(fresh).expect("the engine's own cursor");
    assert_eq!(
        payload.last_entity(),
        span_entity(3, 3),
        "the fresh cursor anchors at the last included record"
    );
    let presented = CursorPayload::decode(&cursor).expect("the presented cursor");
    assert!(
        fresh_position(&payload) > fresh_position(&presented),
        "the fresh cursor's position is strictly past the presented one — \
         the byte anchor moved, so the caller's position advances and the \
         next page resumes losslessly"
    );
    assert_eq!(
        second.execution.coverage.entries,
        vec![CoverageEntry::SnapshotBoundary {
            admission: AdmissionKey::new(at(500), span_entity(5, 5)),
        }],
        "the continuation still names its snapshot boundary"
    );
}

#[test]
fn a_gap_with_no_resident_successor_names_the_snapshot_boundary() {
    let mut store = five_spans();
    let first = records(
        &store,
        &RecordsQuery::new(SignalKind::Spans),
        budget_with(2, 1 << 40, 10_000),
        None,
    )
    .expect("the query answers");
    let cursor = first.next_cursor.expect("a truncated page continues");

    // Everything at and past the anchor goes: the resumed walk can
    // yield nothing before the bound.
    assert!(store.evict(span_entity(2, 2)));
    assert!(store.evict(span_entity(3, 3)));
    assert!(store.evict(span_entity(4, 4)));
    assert!(store.evict(span_entity(5, 5)));

    let second = records(
        &store,
        &RecordsQuery::new(SignalKind::Spans),
        open_budget(),
        Some(&cursor),
    )
    .expect("the query answers");
    assert!(second.items.is_empty());
    assert_eq!(second.execution.parts, vec![PartOutcome::Complete]);
    assert_eq!(
        second.execution.coverage.entries,
        vec![
            CoverageEntry::SnapshotBoundary {
                admission: AdmissionKey::new(at(500), span_entity(5, 5)),
            },
            CoverageEntry::EvictionGap {
                after: span_entity(2, 2),
                before: span_entity(5, 5),
            },
        ],
        "the boundary's entity names the rest when nothing resident remains"
    );
    assert!(second.next_cursor.is_none());
}

#[test]
fn a_scan_stop_on_a_full_batch_spends_the_ceiling_and_nothing_more() {
    let store = five_spans();
    let query = RecordsQuery::new(SignalKind::Spans);
    let budget = budget_with(1_000, 1 << 40, 1);
    let mut session = budget.admit_at(Instant::now());
    let page = walk_records(&store, &query, &mut session, None);
    assert_eq!(
        page.items.len(),
        1,
        "one record passed every gate before the scan ceiling died"
    );
    let truncation = degraded_of(&page);
    assert_eq!(truncation.dimension, Dimension::Scan);
    assert!(page.next_cursor.is_some(), "the page continues");
    // Four pulled-unexamined records were yielded by the driver
    // for this query, but the ceiling is spent — the settle charges
    // nothing rather than breaching it or inventing units.
    assert_eq!(session.ledger().remaining_scan(), 0);
}

#[test]
fn a_tiny_scan_ceiling_is_never_breached_by_batch_pull_ahead() {
    let store = span_store(70);
    let query = RecordsQuery::new(SignalKind::Spans);
    let budget = budget_with(1_000, 1 << 40, 2);
    let ceiling = budget.max_scan();
    let mut session = budget.admit_at(Instant::now());
    let page = walk_records(&store, &query, &mut session, None);
    assert_eq!(
        page.items.len(),
        2,
        "both examined records were returned before the ceiling died"
    );
    let truncation = degraded_of(&page);
    assert_eq!(truncation.dimension, Dimension::Scan);
    // Two examined units are the whole grant; the batch's other
    // sixty-two records — pulled whole, never examined — settle to zero
    // against the drained ceiling.
    assert_eq!(session.ledger().remaining_scan(), 0);
    assert_eq!(
        ceiling - session.ledger().remaining_scan(),
        2,
        "spend equals the ceiling exactly"
    );
}

#[test]
fn a_bound_stop_mid_batch_settles_the_records_past_it() {
    let mut store = five_spans();
    let query = RecordsQuery::new(SignalKind::Spans);
    let first = records(&store, &query, budget_with(2, 1 << 40, 10_000), None)
        .expect("the query answers");
    let cursor = first.next_cursor.expect("a truncated page continues");
    let presented = CursorPayload::decode(&cursor).expect("the first page minted it");

    // Admitted after the minting page: the continuation's snapshot
    // stays at the first page's pulled tail, and the new records sit
    // past the bound.
    keep_span(
        &mut store,
        600,
        span_entity(6, 6),
        fixture_span(6, 6, "span-6"),
    );
    keep_span(
        &mut store,
        700,
        span_entity(7, 7),
        fixture_span(7, 7, "span-7"),
    );

    let budget = open_budget();
    let mut session = budget.admit_at(Instant::now());
    let page = walk_records(&store, &query, &mut session, Some(presented));
    let entities: Vec<EntityId> = page
        .items
        .iter()
        .map(|view| span_entity_of(view).expect("a span page"))
        .collect();
    assert_eq!(
        entities,
        vec![span_entity(3, 3), span_entity(4, 4), span_entity(5, 5),]
    );
    assert_eq!(page.execution.parts, vec![PartOutcome::Complete]);
    // Three examined in-snapshot records, plus the two the batch pulled
    // past the bound (e6, e7) settled at the stop: five units, ceiling
    // intact.
    assert_eq!(session.ledger().remaining_scan(), 10_000 - 5);
    assert!(page.next_cursor.is_none());
}

#[test]
fn a_byte_ceiling_continuation_that_returns_nothing_echoes_its_cursor() {
    let store = five_spans();
    let query = RecordsQuery::new(SignalKind::Spans);
    let first = records(&store, &query, budget_with(2, 1 << 40, 10_000), None)
        .expect("the query answers");
    let cursor = first.next_cursor.expect("a truncated page continues");

    // A byte ceiling below the smallest record's evidence: the
    // continuation returns nothing and counts the rest truthfully.
    let second = records(&store, &query, budget_with(1_000, 1, 10_000), Some(&cursor))
        .expect("the query answers");
    assert!(second.items.is_empty());
    let truncation = degraded_of(&second);
    assert_eq!(truncation.dimension, Dimension::Bytes);
    assert_eq!(truncation.omitted, 3, "e3, e4 and e5 all miss the ceiling");
    assert_eq!(
        second.next_cursor.as_deref(),
        Some(cursor.as_slice()),
        "the presented cursor is echoed byte for byte"
    );
}

#[test]
fn a_metric_points_evidence_is_its_point_only_never_its_stream() {
    let mut store = FixtureStore::empty();
    let first_point = fixture_point(1);
    let second_point = fixture_point(2);
    let ceiling = u64::try_from(first_point.accounted_size() + second_point.accounted_size())
        .expect("sizes fit");
    keep_point(
        &mut store,
        100,
        assigned(1),
        first_point,
        fixture_stream("requests"),
    );
    keep_point(
        &mut store,
        200,
        assigned(2),
        second_point,
        fixture_stream("requests"),
    );

    let page = records(
        &store,
        &RecordsQuery::new(SignalKind::MetricPoints),
        budget_with(1_000, ceiling, 10_000),
        None,
    )
    .expect("the query answers");
    let values: Vec<i64> = page
        .items
        .iter()
        .map(|view| point_value_of(view).expect("a point page"))
        .collect();
    assert_eq!(
        values,
        vec![1, 2],
        "both points fit: identity bytes were never charged"
    );
    let streams: Vec<&str> = page
        .items
        .iter()
        .map(|view| stream_name_of(view).expect("a point page"))
        .collect();
    assert_eq!(
        streams,
        vec!["requests", "requests"],
        "every view carries its stream identity"
    );
    assert_eq!(page.execution.parts, vec![PartOutcome::Complete]);
}

#[test]
fn a_zero_results_budget_demands_the_empty_answer() {
    let store = five_spans();
    let first = records(
        &store,
        &RecordsQuery::new(SignalKind::Spans),
        budget_with(0, 1 << 40, 10_000),
        None,
    )
    .expect("the query answers");
    assert!(first.items.is_empty());
    assert!(first.next_cursor.is_none());
    assert_eq!(first.execution.parts, vec![PartOutcome::Complete]);
    assert!(first.execution.coverage.entries.is_empty());

    let page_one = records(
        &store,
        &RecordsQuery::new(SignalKind::Spans),
        budget_with(2, 1 << 40, 10_000),
        None,
    )
    .expect("the query answers");
    let cursor = page_one.next_cursor.expect("a truncated page continues");
    let continuation = records(
        &store,
        &RecordsQuery::new(SignalKind::Spans),
        budget_with(0, 1 << 40, 10_000),
        Some(&cursor),
    )
    .expect("the query answers");
    assert!(continuation.items.is_empty());
    assert!(continuation.next_cursor.is_none());
    assert_eq!(continuation.execution.parts, vec![PartOutcome::Complete]);
    assert_eq!(
        continuation.execution.coverage.entries,
        vec![CoverageEntry::SnapshotBoundary {
            admission: AdmissionKey::new(at(500), span_entity(5, 5)),
        }],
    );
}

#[test]
fn a_zero_results_continuation_names_an_evicted_anchor_as_a_gap() {
    let mut store = five_spans();
    let first = records(
        &store,
        &RecordsQuery::new(SignalKind::Spans),
        budget_with(2, 1 << 40, 10_000),
        None,
    )
    .expect("the query answers");
    let cursor = first.next_cursor.expect("a truncated page continues");

    assert!(store.evict(span_entity(2, 2)), "the anchor was resident");

    let continuation = records(
        &store,
        &RecordsQuery::new(SignalKind::Spans),
        budget_with(0, 1 << 40, 10_000),
        Some(&cursor),
    )
    .expect("the query answers");
    assert!(continuation.items.is_empty());
    assert!(continuation.next_cursor.is_none());
    assert_eq!(continuation.execution.parts, vec![PartOutcome::Complete]);
    assert_eq!(
        continuation.execution.coverage.entries,
        vec![
            CoverageEntry::SnapshotBoundary {
                admission: AdmissionKey::new(at(500), span_entity(5, 5)),
            },
            CoverageEntry::EvictionGap {
                after: span_entity(2, 2),
                before: span_entity(5, 5),
            },
        ],
        "the evicted anchor is a named hole even though the walk never \
         runs to resolve it"
    );

    // The complement: the same zero-results continuation with a resident
    // anchor stays empty and Complete with only the boundary — never a
    // phantom gap.
    let resident = five_spans();
    let page_one = records(
        &resident,
        &RecordsQuery::new(SignalKind::Spans),
        budget_with(2, 1 << 40, 10_000),
        None,
    )
    .expect("the query answers");
    let resident_cursor = page_one.next_cursor.expect("a truncated page continues");
    let empty = records(
        &resident,
        &RecordsQuery::new(SignalKind::Spans),
        budget_with(0, 1 << 40, 10_000),
        Some(&resident_cursor),
    )
    .expect("the query answers");
    assert!(empty.items.is_empty());
    assert_eq!(
        empty.execution.coverage.entries,
        vec![CoverageEntry::SnapshotBoundary {
            admission: AdmissionKey::new(at(500), span_entity(5, 5)),
        }],
        "a resident anchor produces no gap"
    );
}

// ------------------------------------------------------------------
// Content filters: service, time range, severity, scope identity.
// ------------------------------------------------------------------

#[test]
fn a_service_filter_returns_only_matches_and_still_examines_the_rest() {
    let store = service_store();
    let query = checkout_query();
    let budget = budget_with(1_000, 1 << 40, 10);
    let mut session = budget.admit_at(Instant::now());
    let page = walk_records(&store, &query, &mut session, None);

    let entities: Vec<EntityId> = page
        .items
        .iter()
        .map(|view| span_entity_of(view).expect("a span page"))
        .collect();
    assert_eq!(
        entities,
        vec![span_entity(1, 1), span_entity(3, 3), span_entity(5, 5)],
        "only the checkout records, in residency order"
    );
    assert_eq!(page.execution.parts, vec![PartOutcome::Complete]);
    assert_eq!(
        session.ledger().remaining_scan(),
        10 - 5,
        "all five records were examined — the two payments records pay max_scan too"
    );
    assert_eq!(
        session.ledger().remaining_results(),
        1_000 - 3,
        "results are charged only for records the page returns"
    );
}

#[test]
fn a_time_range_is_half_open_on_both_ends() {
    let scope = fixture_scope("scope", None);
    let mut store = FixtureStore::empty();
    for (index, start) in [100_u64, 200, 300].into_iter().enumerate() {
        let index = u8::try_from(index + 1).expect("fixture indices fit");
        keep_span(
            &mut store,
            u64::from(index) * 100,
            span_entity(index, index),
            service_span(index, index, None, &scope, start),
        );
    }
    let query = RecordsQuery::spans(SpanFilters {
        service: None,
        time_range: Some(TimeRangeFilter::new(200, 300)),
        scope: None,
    });
    let page = records(&store, &query, open_budget(), None).expect("the query answers");
    let entities: Vec<EntityId> = page
        .items
        .iter()
        .map(|view| span_entity_of(view).expect("a span page"))
        .collect();
    assert_eq!(
        entities,
        vec![span_entity(2, 2)],
        "start 100 is before `from`; start 300 sits on the excluded `to`"
    );
    assert_eq!(page.execution.parts, vec![PartOutcome::Complete]);
    assert!(page.next_cursor.is_none());
}

#[test]
fn engine_each_kind_filters_on_its_own_model_timestamp() {
    let scope = fixture_scope("scope", None);
    let mut store = FixtureStore::empty();
    keep_log(
        &mut store,
        100,
        assigned(1),
        service_log(None, &scope, None, None, None, "neither-time"),
    );
    keep_log(
        &mut store,
        200,
        assigned(2),
        service_log(None, &scope, None, Some(150), None, "observation-time-only"),
    );
    keep_log(
        &mut store,
        300,
        assigned(3),
        service_log(
            None,
            &scope,
            Some(50),
            Some(150),
            None,
            "event-time-outside",
        ),
    );
    let (first_point, first_stream) = service_point(None, &scope, 150, 1);
    keep_point(&mut store, 400, assigned(4), first_point, first_stream);
    let (second_point, second_stream) = service_point(None, &scope, 250, 2);
    keep_point(&mut store, 500, assigned(5), second_point, second_stream);

    let window = TimeRangeFilter::new(100, 200);
    let logs = records(
        &store,
        &RecordsQuery::logs(LogFilters {
            service: None,
            time_range: Some(window),
            severity: None,
            scope: None,
        }),
        open_budget(),
        None,
    )
    .expect("the query answers");
    let bodies: Vec<&str> = logs
        .items
        .iter()
        .map(|view| log_body_of(view).expect("a log page"))
        .collect();
    assert_eq!(
        bodies,
        vec!["observation-time-only"],
        "the record with no time key is outside; the event timestamp \
         outranks the in-window observation time"
    );

    let points = records(
        &store,
        &RecordsQuery::metric_points(MetricFilters {
            service: None,
            time_range: Some(window),
            scope: None,
        }),
        open_budget(),
        None,
    )
    .expect("the query answers");
    let values: Vec<i64> = points
        .items
        .iter()
        .map(|view| point_value_of(view).expect("a point page"))
        .collect();
    assert_eq!(values, vec![1], "the point's time_unix_nano is its key");
}

#[test]
fn a_severity_floor_filters_logs_and_absent_severity_is_outside() {
    let scope = fixture_scope("scope", None);
    let mut store = FixtureStore::empty();
    let nine = SeverityNumber::try_new(9).expect("in domain");
    let seventeen = SeverityNumber::try_new(17).expect("in domain");
    keep_log(
        &mut store,
        100,
        assigned(1),
        service_log(None, &scope, None, None, Some(nine), "info"),
    );
    keep_log(
        &mut store,
        200,
        assigned(2),
        service_log(None, &scope, None, None, Some(seventeen), "error"),
    );
    keep_log(
        &mut store,
        300,
        assigned(3),
        service_log(None, &scope, None, None, None, "unnumbered"),
    );

    let at_floor = records(
        &store,
        &RecordsQuery::logs(LogFilters {
            service: None,
            time_range: None,
            severity: Some(SeverityFilter::new(seventeen)),
            scope: None,
        }),
        open_budget(),
        None,
    )
    .expect("the query answers");
    let at_floor_bodies: Vec<&str> = at_floor
        .items
        .iter()
        .map(|view| log_body_of(view).expect("a log page"))
        .collect();
    assert_eq!(
        at_floor_bodies,
        vec!["error"],
        "at-threshold matches; below and absent do not"
    );

    let below_floor = records(
        &store,
        &RecordsQuery::logs(LogFilters {
            service: None,
            time_range: None,
            severity: Some(SeverityFilter::new(nine)),
            scope: None,
        }),
        open_budget(),
        None,
    )
    .expect("the query answers");
    let bodies: Vec<&str> = below_floor
        .items
        .iter()
        .map(|view| log_body_of(view).expect("a log page"))
        .collect();
    assert_eq!(
        bodies,
        vec!["info", "error"],
        "both numbered logs at or above the floor, in residency order"
    );
}

#[test]
fn a_scope_filter_matches_name_and_version_exactly() {
    let mut store = FixtureStore::empty();
    let versioned = fixture_scope("io.runtime-trail.scope", Some("1.2.3"));
    let unversioned = fixture_scope("io.runtime-trail.scope", None);
    let other = fixture_scope("io.runtime-trail.other", Some("1.2.3"));
    keep_span(
        &mut store,
        100,
        span_entity(1, 1),
        service_span(1, 1, None, &versioned, 10),
    );
    keep_span(
        &mut store,
        200,
        span_entity(2, 2),
        service_span(2, 2, None, &unversioned, 10),
    );
    keep_span(
        &mut store,
        300,
        span_entity(3, 3),
        service_span(3, 3, None, &other, 10),
    );

    let exact = records(
        &store,
        &RecordsQuery::spans(SpanFilters {
            service: None,
            time_range: None,
            scope: Some(ScopeFilter::new(
                "io.runtime-trail.scope",
                Some("1.2.3".to_owned()),
            )),
        }),
        open_budget(),
        None,
    )
    .expect("the query answers");
    let exact_entities: Vec<EntityId> = exact
        .items
        .iter()
        .map(|view| span_entity_of(view).expect("a span page"))
        .collect();
    assert_eq!(exact_entities, vec![span_entity(1, 1)]);

    let absent = records(
        &store,
        &RecordsQuery::spans(SpanFilters {
            service: None,
            time_range: None,
            scope: Some(ScopeFilter::new("io.runtime-trail.scope", None)),
        }),
        open_budget(),
        None,
    )
    .expect("the query answers");
    let absent_entities: Vec<EntityId> = absent
        .items
        .iter()
        .map(|view| span_entity_of(view).expect("a span page"))
        .collect();
    assert_eq!(
        absent_entities,
        vec![span_entity(2, 2)],
        "an absent filter version matches only an absent record version"
    );
}

#[test]
fn a_cursor_continues_only_under_the_filters_that_minted_it() {
    let store = service_store();
    let first = records(
        &store,
        &checkout_query(),
        budget_with(1, 1 << 40, 10_000),
        None,
    )
    .expect("the query answers");
    let cursor = first.next_cursor.expect("a truncated page continues");

    let foreign_service = records(
        &store,
        &RecordsQuery::spans(SpanFilters {
            service: Some(ServiceFilter::new("payments")),
            time_range: None,
            scope: None,
        }),
        budget_with(1, 1 << 40, 10_000),
        Some(&cursor),
    )
    .expect_err("a different service is a different query");
    assert_eq!(
        foreign_service,
        QueryError::Cursor(CursorError::FingerprintMismatch)
    );

    let unfiltered = records(
        &store,
        &RecordsQuery::new(SignalKind::Spans),
        budget_with(1, 1 << 40, 10_000),
        Some(&cursor),
    )
    .expect_err("no filter set is also a different query");
    assert_eq!(
        unfiltered,
        QueryError::Cursor(CursorError::FingerprintMismatch)
    );

    let same = records(&store, &checkout_query(), open_budget(), Some(&cursor))
        .expect("the identical filter set continues");
    let entities: Vec<EntityId> = same
        .items
        .iter()
        .map(|view| span_entity_of(view).expect("a span page"))
        .collect();
    assert_eq!(
        entities,
        vec![span_entity(3, 3), span_entity(5, 5)],
        "the continuation carries the rest of the same answer set"
    );
}

#[test]
fn pagination_under_filters_walks_to_exhaustion_without_repeat_or_loss() {
    let store = service_store();
    let query = checkout_query();
    let mut cursor: Option<Vec<u8>> = None;
    let mut seen: Vec<EntityId> = Vec::new();
    let mut continuations = 0;
    loop {
        let presented = cursor.is_some();
        let page = records(
            &store,
            &query,
            budget_with(2, 1 << 40, 10_000),
            cursor.as_deref(),
        )
        .expect("the query answers");
        seen.extend(
            page.items
                .iter()
                .map(|view| span_entity_of(view).expect("a span page")),
        );
        if let Some(next) = page.next_cursor.clone() {
            cursor = Some(next);
            continuations += 1;
            if presented {
                assert!(
                    page.execution
                        .coverage
                        .entries
                        .iter()
                        .any(|entry| matches!(entry, CoverageEntry::SnapshotBoundary { .. })),
                    "every continuation names its snapshot boundary"
                );
            }
        } else {
            assert_eq!(page.execution.parts, vec![PartOutcome::Complete]);
            break;
        }
        assert!(continuations < 10, "the walk terminates");
    }
    assert_eq!(continuations, 1, "five residents, three matches, two pages");
    assert_eq!(
        seen,
        vec![span_entity(1, 1), span_entity(3, 3), span_entity(5, 5)],
        "every matching record exactly once, in residency order"
    );
}

#[test]
fn records_admitted_after_the_frontier_stay_outside_a_filtered_continuation() {
    let mut store = service_store();
    let first = records(
        &store,
        &checkout_query(),
        budget_with(1, 1 << 40, 10_000),
        None,
    )
    .expect("the query answers");
    let cursor = first.next_cursor.expect("a truncated page continues");
    let payload = CursorPayload::decode(&cursor).expect("the engine's own cursor");
    assert_eq!(
        payload.snapshot(),
        AdmissionKey::new(at(500), span_entity(5, 5)),
        "the frontier is the minting page's pulled batch tail"
    );

    let scope = fixture_scope("scope", None);
    keep_span(
        &mut store,
        600,
        span_entity(6, 6),
        service_span(6, 6, Some("checkout"), &scope, 60),
    );

    let second = records(&store, &checkout_query(), open_budget(), Some(&cursor))
        .expect("the query answers");
    let entities: Vec<EntityId> = second
        .items
        .iter()
        .map(|view| span_entity_of(view).expect("a span page"))
        .collect();
    assert_eq!(
        entities,
        vec![span_entity(3, 3), span_entity(5, 5)],
        "the page walks exactly the snapshot — the newer matching record \
         stays outside"
    );
    assert_eq!(second.execution.parts, vec![PartOutcome::Complete]);
    assert_eq!(
        second.execution.coverage.entries,
        vec![CoverageEntry::SnapshotBoundary {
            admission: AdmissionKey::new(at(500), span_entity(5, 5)),
        }],
    );
    assert!(second.next_cursor.is_none());
}

#[test]
fn an_evicted_anchor_under_filters_names_the_gap_and_walks_exact() {
    let mut store = service_store();
    let first = records(
        &store,
        &checkout_query(),
        budget_with(1, 1 << 40, 10_000),
        None,
    )
    .expect("the query answers");
    let cursor = first.next_cursor.expect("a truncated page continues");
    let payload = CursorPayload::decode(&cursor).expect("the engine's own cursor");
    assert_eq!(
        payload.last_entity(),
        span_entity(1, 1),
        "the anchor matches"
    );

    assert!(store.evict(span_entity(1, 1)), "the anchor was resident");

    let second = records(&store, &checkout_query(), open_budget(), Some(&cursor))
        .expect("the query answers");
    let entities: Vec<EntityId> = second
        .items
        .iter()
        .map(|view| span_entity_of(view).expect("a span page"))
        .collect();
    assert_eq!(
        entities,
        vec![span_entity(3, 3), span_entity(5, 5)],
        "the walk resumes exactly, skipping nothing matching that is resident"
    );
    assert_eq!(
        second.execution.coverage.entries,
        vec![
            CoverageEntry::SnapshotBoundary {
                admission: AdmissionKey::new(at(500), span_entity(5, 5)),
            },
            CoverageEntry::EvictionGap {
                after: span_entity(1, 1),
                before: span_entity(2, 2),
            },
        ],
        "the gap names the evicted anchor and the first examined successor — \
         the filtered-out record where the hole ends"
    );
    assert!(second.next_cursor.is_none());
}

#[test]
fn a_byte_ceiling_under_filters_counts_only_matching_omissions() {
    let scope = fixture_scope("scope", None);
    let mut store = FixtureStore::empty();
    let mut sizes = Vec::new();
    for index in 1_u8..=5_u8 {
        let service = match index {
            2 | 4 => "payments",
            _ => "checkout",
        };
        let name = match index {
            1 => "a".repeat(10),
            2 => "b".repeat(10),
            3 => "c".repeat(40),
            4 => "d".repeat(10),
            _ => "e".repeat(30),
        };
        let mut span = fixture_span(index, index, &name);
        span.resource = Arc::new(fixture_resource(Some(service)));
        span.scope = Arc::new(scope.clone());
        sizes.push(u64::try_from(span.accounted_size()).expect("sizes fit"));
        keep_span(
            &mut store,
            u64::from(index) * 100,
            span_entity(index, index),
            span,
        );
    }
    // The ceiling fits e1 and e3 with e2's evidence left over — but
    // e2 was never charged, so e5 is the wall — and stops one byte
    // short of it.
    let ceiling = sizes[0] + sizes[2] + sizes[1] - 1;
    let query = checkout_query();
    let budget = budget_with(1_000, ceiling, 10_000);
    let mut session = budget.admit_at(Instant::now());
    let page = walk_records(&store, &query, &mut session, None);

    let truncation = degraded_of(&page);
    assert_eq!(truncation.dimension, Dimension::Bytes);
    assert_eq!(
        truncation.omitted, 1,
        "only e5 — the matching record behind the wall; e4 is filtered, \
         not omitted"
    );
    let entities: Vec<EntityId> = page
        .items
        .iter()
        .map(|view| span_entity_of(view).expect("a span page"))
        .collect();
    assert_eq!(entities, vec![span_entity(1, 1), span_entity(3, 3)]);
    assert_eq!(
        session.ledger().remaining_bytes(),
        ceiling - sizes[0] - sizes[2],
        "the filtered-out records' evidence was never charged"
    );
    let cursor = page.next_cursor.as_deref().expect("the page continues");
    let payload = CursorPayload::decode(cursor).expect("the engine's own cursor");
    assert_eq!(
        payload.last_entity(),
        span_entity(3, 3),
        "the cursor anchors at the last included record"
    );
    assert!(
        page.execution.coverage.entries.is_empty(),
        "a counted omission needs no coverage entry"
    );
}

#[test]
fn a_filtered_record_behind_the_byte_wall_is_examined_and_never_counted() {
    let scope = fixture_scope("scope", None);
    let mut store = FixtureStore::empty();
    let mut sizes = Vec::new();
    for index in 1_u8..=5_u8 {
        let service = match index {
            3 | 5 => "payments",
            _ => "checkout",
        };
        let name = match index {
            1 => "a".repeat(10),
            _ => format!("s{index:0>3}").repeat(20),
        };
        let mut span = fixture_span(index, index, &name);
        span.resource = Arc::new(fixture_resource(Some(service)));
        span.scope = Arc::new(scope.clone());
        sizes.push(u64::try_from(span.accounted_size()).expect("sizes fit"));
        keep_span(
            &mut store,
            u64::from(index) * 100,
            span_entity(index, index),
            span,
        );
    }
    // The ceiling fits e1 exactly, so e2 — matching, and not fitting —
    // is the wall that opens the counting region. e3 and e5 are
    // filtered out inside that region; e4 is the second matching
    // record that does not fit.
    let ceiling = sizes[0];
    let query = checkout_query();
    let budget = budget_with(1_000, ceiling, 5);
    let mut session = budget.admit_at(Instant::now());
    let page = walk_records(&store, &query, &mut session, None);

    let truncation = degraded_of(&page);
    assert_eq!(truncation.dimension, Dimension::Bytes);
    assert_eq!(
        truncation.omitted, 2,
        "only e2 and e4 — the matching records behind the wall; the \
         filtered-out e3 and e5 are never counted"
    );
    let entities: Vec<EntityId> = page
        .items
        .iter()
        .map(|view| span_entity_of(view).expect("a span page"))
        .collect();
    assert_eq!(entities, vec![span_entity(1, 1)]);
    assert_eq!(
        session.ledger().remaining_bytes(),
        0,
        "nothing behind the wall was evidence-charged — counted \
         records are examined, never charged"
    );
    assert_eq!(
        session.ledger().remaining_scan(),
        0,
        "all five residents were examined — the filtered-out e3 and \
         e5 were scan-charged like the rest"
    );
    let cursor = page.next_cursor.as_deref().expect("the page continues");
    let payload = CursorPayload::decode(cursor).expect("the engine's own cursor");
    assert_eq!(
        payload.last_entity(),
        span_entity(1, 1),
        "the cursor anchors at the last included record — e1, the only \
         record that fit"
    );
}

#[test]
fn a_dead_continuation_under_filters_refuses_at_the_dead_deadline() {
    let store = service_store();
    let first = records(
        &store,
        &checkout_query(),
        budget_with(1, 1 << 40, 10_000),
        None,
    )
    .expect("the query answers");
    let cursor = first.next_cursor.expect("a truncated page continues");

    let second = records(
        &store,
        &checkout_query(),
        QueryBudget::new(Duration::ZERO, 1_000, 1 << 40, 10_000, 4_096),
        Some(&cursor),
    )
    .expect("the query answers");

    assert!(second.items.is_empty());
    assert!(
        second.next_cursor.is_none(),
        "a refused continuation offers no cursor — an echo would be a \
         fabricated position, indistinguishable from progress"
    );
    let [PartOutcome::Refused(refusal)] = &second.execution.parts[..] else {
        panic!("a dead continuation refuses, not degrades");
    };
    assert_eq!(refusal.dimension, Dimension::Deadline);
    assert_eq!(
        refusal.limit,
        Magnitude::Duration(Duration::ZERO),
        "the admitted deadline was zero"
    );
    assert!(
        matches!(refusal.observed, Magnitude::Duration(_)),
        "the observed spend is a duration"
    );
    assert_eq!(
        second.execution.coverage.entries,
        vec![CoverageEntry::SnapshotBoundary {
            admission: AdmissionKey::new(at(500), span_entity(5, 5)),
        }],
        "the continuation still names its snapshot boundary"
    );
}

#[test]
fn a_scan_stop_under_filters_anchors_at_the_last_examined_and_stays_lossless() {
    let store = service_store();
    let query = checkout_query();
    let budget = budget_with(1_000, 1 << 40, 2);
    let mut session = budget.admit_at(Instant::now());
    let page = walk_records(&store, &query, &mut session, None);

    assert_eq!(
        page.items.len(),
        1,
        "only e1 was examined and included before the ceiling expired"
    );
    let truncation = degraded_of(&page);
    assert_eq!(truncation.dimension, Dimension::Scan);
    let cursor = page.next_cursor.as_deref().expect("the page continues");
    let payload = CursorPayload::decode(cursor).expect("the engine's own cursor");
    assert_eq!(
        payload.last_entity(),
        span_entity(2, 2),
        "the anchor is the last examined record — filtered out, but where \
         the walk actually stopped"
    );
    assert_eq!(session.ledger().remaining_scan(), 0);

    let second =
        records(&store, &query, open_budget(), Some(cursor)).expect("the query answers");
    let entities: Vec<EntityId> = second
        .items
        .iter()
        .map(|view| span_entity_of(view).expect("a span page"))
        .collect();
    assert_eq!(
        entities,
        vec![span_entity(3, 3), span_entity(5, 5)],
        "the continuation resumes after the stop and loses nothing"
    );
}

#[test]
fn identical_filtered_queries_assemble_identical_pages() {
    fn run(store: &FixtureStore) -> Page<RecordView> {
        records(
            store,
            &checkout_query(),
            budget_with(2, 1 << 40, 10_000),
            None,
        )
        .expect("the query answers")
    }

    let first_store = service_store();
    let second_store = service_store();
    let first = run(&first_store);
    let second = run(&first_store);
    let third = run(&second_store);
    assert_eq!(first, second, "two runs on one store assemble one page");
    assert_eq!(first, third, "a second, identically built store too");

    let entities: Vec<EntityId> = first
        .items
        .iter()
        .map(|view| span_entity_of(view).expect("a span page"))
        .collect();
    assert_eq!(
        entities,
        vec![span_entity(1, 1), span_entity(3, 3)],
        "the page carries the first two matches in residency order"
    );
    let cursor = first
        .next_cursor
        .as_deref()
        .expect("a truncated page continues");
    let payload = CursorPayload::decode(cursor).expect("the engine's own cursor");
    assert_eq!(
        payload.last_entity(),
        span_entity(3, 3),
        "the minted cursor anchors at the last included record"
    );
}

#[test]
fn all_none_filters_are_byte_identical_to_kind_only_queries() {
    let scope = fixture_scope("scope", None);
    let mut store = FixtureStore::empty();
    keep_span(
        &mut store,
        100,
        span_entity(1, 1),
        service_span(1, 1, Some("checkout"), &scope, 10),
    );
    keep_span(
        &mut store,
        200,
        span_entity(2, 2),
        service_span(2, 2, None, &scope, 10),
    );
    keep_log(
        &mut store,
        300,
        assigned(3),
        service_log(
            Some("checkout"),
            &scope,
            Some(50),
            Some(60),
            Some(SeverityNumber::try_new(9).expect("in domain")),
            "log-one",
        ),
    );
    let (point, stream) = service_point(None, &scope, 70, 1);
    keep_point(&mut store, 400, assigned(4), point, stream);

    let plain = [
        RecordsQuery::new(SignalKind::Spans),
        RecordsQuery::new(SignalKind::LogRecords),
        RecordsQuery::new(SignalKind::MetricPoints),
    ];
    let emptied = [
        RecordsQuery::spans(SpanFilters::all_none()),
        RecordsQuery::logs(LogFilters::all_none()),
        RecordsQuery::metric_points(MetricFilters::all_none()),
    ];
    for (plain, emptied) in plain.iter().zip(emptied.iter()) {
        assert_eq!(
            plain.canonical_bytes(),
            emptied.canonical_bytes(),
            "the all-None encoding is the kind-only encoding"
        );
        assert_eq!(plain, emptied, "the queries are equal");
        for results in [1_000_u64, 1] {
            let budget = budget_with(results, 1 << 40, 10_000);
            let plain_page =
                records(&store, plain, budget_with(results, 1 << 40, 10_000), None)
                    .expect("the query answers");
            let emptied_page =
                records(&store, emptied, budget, None).expect("the query answers");
            assert_eq!(
                plain_page, emptied_page,
                "identical pages under a {results}-result budget"
            );
        }
    }
}

#[test]
fn a_time_filtered_page_stays_in_scan_order_not_time_order() {
    let scope = fixture_scope("scope", None);
    let mut store = FixtureStore::empty();
    // Scan order 100..400; the time keys descend: 900, 700, 500, 300.
    keep_log(
        &mut store,
        100,
        assigned(1),
        service_log(None, &scope, None, Some(900), None, "latest"),
    );
    keep_log(
        &mut store,
        200,
        assigned(2),
        service_log(None, &scope, Some(700), Some(950), None, "second"),
    );
    keep_log(
        &mut store,
        300,
        assigned(3),
        service_log(None, &scope, Some(500), Some(800), None, "third"),
    );
    keep_log(
        &mut store,
        400,
        assigned(4),
        service_log(None, &scope, Some(300), Some(310), None, "earliest"),
    );

    let page = records(
        &store,
        &RecordsQuery::logs(LogFilters {
            service: None,
            time_range: Some(TimeRangeFilter::new(400, 1_000)),
            severity: None,
            scope: None,
        }),
        open_budget(),
        None,
    )
    .expect("the query answers");
    let bodies: Vec<&str> = page
        .items
        .iter()
        .map(|view| log_body_of(view).expect("a log page"))
        .collect();
    assert_eq!(
        bodies,
        vec!["latest", "second", "third"],
        "scan order, not time order — and the observation-time-only \
         record participates through its fallback key"
    );
    assert_eq!(page.execution.parts, vec![PartOutcome::Complete]);
    assert!(page.next_cursor.is_none());
}

#[test]
fn a_continuation_page_readmits_the_callers_budget() {
    let store = five_spans();
    let query = RecordsQuery::new(SignalKind::Spans);

    let first = records(&store, &query, budget_with(2, 1 << 40, 10_000), None)
        .expect("the query answers");
    assert_eq!(
        first.items.len(),
        2,
        "page 1 saturates its own max_results of two"
    );
    let [PartOutcome::Degraded { truncation }] = &first.execution.parts[..] else {
        panic!("page 1 degrades under its own max_results");
    };
    assert_eq!(truncation.dimension, Dimension::Results);
    let cursor = first.next_cursor.expect("a saturated page continues");

    let second = records(
        &store,
        &query,
        budget_with(1, 1 << 40, 10_000),
        Some(&cursor),
    )
    .expect("the fingerprint-valid cursor continues");
    assert_eq!(
        second.items.len(),
        1,
        "page 2 re-admits the caller's budget: its own max_results \
         of one bounds the page, not page 1's remaining allowance"
    );
    let [PartOutcome::Degraded { truncation }] = &second.execution.parts[..] else {
        panic!("page 2 degrades under its own max_results");
    };
    assert_eq!(truncation.dimension, Dimension::Results);
    assert_eq!(
        truncation.omitted, 0,
        "a results cut leaves nothing uncounted"
    );
    assert!(
        matches!(truncation.position, TruncationPoint::Cursor(_)),
        "page 2's truncation names its own continuation cursor"
    );
    assert!(
        second.next_cursor.is_some(),
        "page 2 continues under its own budget"
    );
    assert_eq!(
        second.execution.coverage.entries,
        vec![CoverageEntry::SnapshotBoundary {
            admission: AdmissionKey::new(at(500), span_entity(5, 5)),
        }],
        "page 2's coverage is its own page-2 fact: the boundary the \
         first page minted, named again by the continuation"
    );

    assert_eq!(
        second
            .items
            .iter()
            .map(|view| span_entity_of(view).expect("a span page"))
            .collect::<Vec<_>>(),
        vec![span_entity(3, 3)],
        "page 2 returns its one entity under its own max_results"
    );
    // The full walk under per-page budgets: every page bounds itself
    // and the chain stays lossless — five records, none repeated.
    let mut entities = vec![span_entity(1, 1), span_entity(2, 2), span_entity(3, 3)];
    let mut cursor = second.next_cursor;
    while let Some(next) = cursor {
        let page = records(&store, &query, budget_with(1, 1 << 40, 10_000), Some(&next))
            .expect("the query answers");
        entities.extend(
            page.items
                .iter()
                .map(|view| span_entity_of(view).expect("a span page")),
        );
        cursor = page.next_cursor;
    }
    assert_eq!(
        entities,
        vec![
            span_entity(1, 1),
            span_entity(2, 2),
            span_entity(3, 3),
            span_entity(4, 4),
            span_entity(5, 5),
        ],
        "per-page budgets page the same set to exhaustion without \
         repeat or loss"
    );
}

#[derive(Clone, Copy, Debug, PartialEq, Eq)]
enum StallPolicy {
    Always,
    AfterFirst,
    FirstOnly,
}

struct StallingStore {
    inner: FixtureStore,
    served: AtomicUsize,
    stall_cursor: AdmissionKey,
    policy: StallPolicy,
}

impl StallingStore {
    fn new(inner: FixtureStore, policy: StallPolicy) -> Self {
        Self {
            inner,
            served: AtomicUsize::new(0),
            stall_cursor: AdmissionKey::new(at(101 * 100), span_entity(101, 101)),
            policy,
        }
    }

    fn with_cursor(mut self, stall_cursor: AdmissionKey) -> Self {
        self.stall_cursor = stall_cursor;
        self
    }
}

impl TelemetryStore for StallingStore {
    fn keep_span(&mut self, admitted: Admitted<Arc<Span>>) -> KeepOutcome {
        self.inner.keep_span(admitted)
    }

    fn keep_log_record(&mut self, admitted: Admitted<Arc<LogRecord>>) -> KeepOutcome {
        self.inner.keep_log_record(admitted)
    }

    fn keep_metric_point(
        &mut self,
        admitted: Admitted<Arc<MetricPoint>>,
        stream: Arc<StreamIdentity>,
    ) -> KeepOutcome {
        self.inner.keep_metric_point(admitted, stream)
    }

    fn span(&self, entity: EntityId) -> Option<Arc<Span>> {
        self.inner.span(entity)
    }

    fn log_record(&self, entity: EntityId) -> Option<Arc<LogRecord>> {
        self.inner.log_record(entity)
    }

    fn metric_point(&self, entity: EntityId) -> Option<PointView> {
        self.inner.metric_point(entity)
    }

    fn scan_spans(&self, after: Option<AdmissionKey>, limit: usize) -> ScanPage<Arc<Span>> {
        let served = self.served.load(Ordering::Relaxed);
        self.served.store(served + 1, Ordering::Relaxed);
        let stalls = match self.policy {
            StallPolicy::Always => true,
            StallPolicy::AfterFirst => served >= 1,
            StallPolicy::FirstOnly => served == 0,
        };
        if stalls {
            return ScanPage {
                items: Vec::new(),
                cursor: Some(self.stall_cursor),
            };
        }
        self.inner.scan_spans(after, limit)
    }

    fn scan_log_records(
        &self,
        after: Option<AdmissionKey>,
        limit: usize,
    ) -> ScanPage<Arc<LogRecord>> {
        self.inner.scan_log_records(after, limit)
    }

    fn scan_metric_points(
        &self,
        after: Option<AdmissionKey>,
        limit: usize,
    ) -> ScanPage<PointView> {
        self.inner.scan_metric_points(after, limit)
    }

    fn enforce_retention(&mut self, now: AdmissionTime) -> u64 {
        self.inner.enforce_retention(now)
    }

    fn observe_admission_anomalies(&mut self, total: u64) {
        self.inner.observe_admission_anomalies(total);
    }

    fn stats(&self) -> StoreStats {
        self.inner.stats()
    }

    fn mode_name(&self) -> &'static str {
        "test-stalling"
    }
}

#[test]
fn a_driver_stall_ends_the_walk_with_honest_coverage() {
    let store = StallingStore::new(span_store(100), StallPolicy::AfterFirst);
    let page = records(
        &store,
        &RecordsQuery::new(SignalKind::Spans),
        open_budget(),
        None,
    )
    .expect("the query answers");

    assert_eq!(
        page.items.len(),
        64,
        "the one real batch is collected before the stall"
    );
    assert!(
        page.next_cursor.is_none(),
        "a stalled walk mints no further cursor"
    );
    assert_eq!(page.execution.parts, vec![PartOutcome::Stalled]);
    assert_eq!(
        page.execution.coverage.entries,
        vec![CoverageEntry::DriverStall {
            after: span_entity(64, 64),
        }],
        "the stall names the last record the walk examined"
    );
}

#[test]
fn a_driver_stall_before_any_examination_names_its_cursor_anchor() {
    let store = StallingStore::new(span_store(5), StallPolicy::Always);
    let page = records(
        &store,
        &RecordsQuery::new(SignalKind::Spans),
        open_budget(),
        None,
    )
    .expect("the query answers");

    assert!(page.items.is_empty());
    assert!(page.next_cursor.is_none());
    assert_eq!(page.execution.parts, vec![PartOutcome::Stalled]);
    assert_eq!(
        page.execution.coverage.entries,
        vec![CoverageEntry::DriverStall {
            after: span_entity(101, 101),
        }],
        "with nothing examined, the stall names the driver's cursor \
         anchor"
    );
}

#[test]
fn one_empty_continuation_is_absorbed_without_stalling() {
    // The blip claims "more records after (0, span 0)" — before the
    // first real record — so the resumed walk still yields the whole
    // set: a blip that points past data would be the driver's own
    // data loss, which the engine cannot see either way.
    let store = StallingStore::new(span_store(100), StallPolicy::FirstOnly)
        .with_cursor(AdmissionKey::new(at(0), span_entity(0, 0)));
    let page = records(
        &store,
        &RecordsQuery::new(SignalKind::Spans),
        open_budget(),
        None,
    )
    .expect("the query answers");

    assert_eq!(
        page.items.len(),
        100,
        "the whole set is collected after the absorbed blip"
    );
    assert_eq!(page.execution.parts, vec![PartOutcome::Complete]);
    assert!(
        page.execution
            .coverage
            .entries
            .iter()
            .all(|entry| !matches!(entry, CoverageEntry::DriverStall { .. })),
        "a one-page blip is not a stall"
    );
    assert!(page.next_cursor.is_none());
}

#[test]
fn a_lease_admits_its_own_snapshot_and_no_other() {
    let store = five_spans();
    let query = RecordsQuery::new(SignalKind::Spans);
    let first = records(&store, &query, budget_with(2, 1 << 40, 10_000), None)
        .expect("the query answers");
    let cursor = first.next_cursor.expect("a truncated page continues");
    let snapshot = CursorPayload::decode(&cursor)
        .expect("the engine's own cursor")
        .snapshot();
    let investigation = InvestigationId::new(Serial::new(1).expect("nonzero"));
    let lease = SnapshotLease::for_boundary(investigation, snapshot);

    let leased = records_leased(&store, &query, open_budget(), &cursor, &lease)
        .expect("the lease governs the cursor's snapshot");
    let unleased =
        records(&store, &query, open_budget(), Some(&cursor)).expect("the query answers");
    assert_eq!(leased, unleased);
    assert_eq!(leased.items.len(), 3);

    let foreign = SnapshotLease::for_boundary(
        investigation,
        AdmissionKey::new(at(1), span_entity(1, 1)),
    );
    assert_eq!(
        records_leased(&store, &query, open_budget(), &cursor, &foreign),
        Err(QueryError::Cursor(CursorError::LeaseMismatch))
    );
    assert_eq!(
        records_leased(
            &store,
            &RecordsQuery::new(SignalKind::LogRecords),
            open_budget(),
            &cursor,
            &foreign
        ),
        Err(QueryError::Cursor(CursorError::FingerprintMismatch)),
        "the query is checked before the lease"
    );
    assert_eq!(
        records_leased(&store, &query, open_budget(), b"no cursor", &lease),
        Err(QueryError::Cursor(CursorError::Malformed))
    );
}

#[test]
fn a_failed_query_says_why() {
    for (error, reason) in [
        (
            CursorError::Malformed,
            "records query failed: cursor is not a canonical cursor encoding",
        ),
        (
            CursorError::FingerprintMismatch,
            "records query failed: cursor belongs to a different query (fingerprint mismatch)",
        ),
        (
            CursorError::LeaseMismatch,
            "records query failed: cursor belongs to a different snapshot (lease mismatch)",
        ),
    ] {
        assert_eq!(QueryError::from(error).message(), reason);
    }
}

#[test]
fn records_pulled_and_given_up_are_charged_up_to_the_ceiling() {
    let mut session = budget_with(1, 1, 10).admit_at(Instant::now());
    session.settle_abandoned_scan(4);
    assert_eq!(session.ledger().remaining_scan(), 6);
    session.settle_abandoned_scan(7);
    assert_eq!(session.ledger().remaining_scan(), 0);
}

/// Seven spans, admitted 100 nanoseconds apart: a ceiling that fits the first two
/// and stops one byte short of the third counts the remainder.
fn wedge_store() -> (FixtureStore, Vec<u64>) {
    let mut store = FixtureStore::empty();
    let mut sizes = Vec::new();
    for index in 1_u8..=7_u8 {
        let name = match index {
            1 => "a".repeat(40),
            2 => "b".repeat(40),
            3 => "c".repeat(80),
            4 => "d".repeat(40),
            5 => "e".repeat(100),
            6 => "f".repeat(40),
            _ => "g".repeat(40),
        };
        let span = fixture_span(index, index, &name);
        sizes.push(u64::try_from(span.accounted_size()).expect("sizes fit"));
        keep_span(
            &mut store,
            u64::from(index) * 100,
            span_entity(index, index),
            span,
        );
    }
    (store, sizes)
}

fn entities_of(page: &Page<RecordView>) -> Vec<EntityId> {
    page.items
        .iter()
        .map(|view| span_entity_of(view).expect("a span page"))
        .collect()
}

#[test]
fn a_byte_wall_advances_past_its_counted_tail_and_the_records_behind_it_stay_reachable() {
    let (store, sizes) = wedge_store();
    let query = RecordsQuery::new(SignalKind::Spans);
    let ceiling = sizes[0] + sizes[1] + sizes[2] - 1;
    // The scan burst of five ends the first page while it is still counting:
    // the wall counted e3, e4 and e5.
    let budget = || QueryBudget::new(Duration::from_secs(10), 1_000, ceiling, 5, 4_096);

    let first = records(&store, &query, budget(), None).expect("the query answers");
    let truncation = degraded_of(&first);
    assert_eq!(truncation.dimension, Dimension::Bytes);
    assert_eq!(
        truncation.omitted, 3,
        "the wall counts every record it examined and did not deliver: e3 \
         (does not fit), e4 (would fit, but nothing is returned past the wall) \
         and e5 (does not fit)"
    );
    assert_eq!(
        entities_of(&first),
        vec![span_entity(1, 1), span_entity(2, 2)]
    );
    let cursor = first.next_cursor.as_deref().expect("the wall continues");
    let payload = CursorPayload::decode(cursor).expect("the engine's own cursor");
    assert_eq!(
        payload.position(),
        500_u64,
        "the cursor anchors at e5, strictly past the wall"
    );
    assert_eq!(payload.last_entity(), span_entity(5, 5));

    let second = records(&store, &query, budget(), Some(cursor)).expect("the query answers");
    assert_eq!(
        entities_of(&second),
        vec![span_entity(6, 6), span_entity(7, 7)],
        "the walk advances past the counted tail and delivers what follows"
    );
    assert_eq!(second.execution.parts, vec![PartOutcome::Complete]);
    assert!(
        second.next_cursor.is_none(),
        "the walk consumed the whole kind"
    );
}

#[test]
fn a_cut_count_names_the_last_record_examined() {
    let (store, sizes) = wedge_store();
    let query = RecordsQuery::new(SignalKind::Spans);
    // Four examinations: e3 opens the count, and e4, which would fit, is the
    // last record examined.
    let page = records(
        &store,
        &query,
        budget_with(1_000, sizes[0] + sizes[1] + sizes[2] - 1, 4),
        None,
    )
    .expect("the query answers");
    assert_eq!(degraded_of(&page).omitted, 2);
    assert_eq!(
        page.execution.coverage.entries,
        vec![CoverageEntry::UncountedTail {
            after: span_entity(4, 4),
            dimension: Dimension::Scan,
        }]
    );
    let cursor = page.next_cursor.as_deref().expect("the page continues");
    let payload = CursorPayload::decode(cursor).expect("the engine's own cursor");
    assert_eq!(payload.last_entity(), span_entity(4, 4));
}

#[test]
fn a_cut_count_behind_nothing_returned_moves_on() {
    let store = five_spans();
    let query = RecordsQuery::new(SignalKind::Spans);
    let mut cursor = None;
    let mut anchors = Vec::new();
    // No span fits one byte: every page passes over the two that it may examine,
    // and the last finds nothing behind e5.
    for _ in 0..3 {
        let page = records(&store, &query, budget_with(1_000, 1, 2), cursor.as_deref())
            .expect("the query answers");
        assert!(page.items.is_empty());
        cursor = page.next_cursor;
        anchors.push(cursor.as_deref().map(|bytes| {
            CursorPayload::decode(bytes)
                .expect("the engine's own cursor")
                .last_entity()
        }));
    }
    assert_eq!(anchors[0], Some(span_entity(2, 2)));
    assert_eq!(anchors[1], Some(span_entity(4, 4)));
}

#[test]
fn a_record_that_does_not_fit_costs_no_result() {
    let (store, sizes) = wedge_store();
    let query = RecordsQuery::new(SignalKind::Spans);
    let budget = budget_with(1_000, sizes[0] + sizes[1] + sizes[2] - 1, 10_000);
    let mut session = budget.admit_at(Instant::now());
    let page = walk_records(&store, &query, &mut session, None);
    assert_eq!(page.items.len(), 2);
    assert_eq!(degraded_of(&page).dimension, Dimension::Bytes);
    assert_eq!(degraded_of(&page).omitted, 2, "e3 and e5 do not fit what is left");
    assert_eq!(session.ledger().remaining_results(), 998);
    assert_eq!(session.ledger().remaining_bytes(), sizes[2] - 1);
}

#[test]
fn paging_until_there_is_no_continuation_ends_complete() {
    let store = five_spans();
    let query = RecordsQuery::new(SignalKind::Spans);
    let mut seen = Vec::new();
    let mut lengths = Vec::new();
    let mut cursor = None;
    let parts = loop {
        let page = records(
            &store,
            &query,
            budget_with(2, 1 << 40, 10_000),
            cursor.as_deref(),
        )
        .expect("the query answers");
        seen.extend(entities_of(&page));
        lengths.push(page.items.len());
        cursor = page.next_cursor;
        if cursor.is_none() {
            break page.execution.parts;
        }
    };
    assert_eq!(parts, vec![PartOutcome::Complete]);
    assert_eq!(lengths, vec![2, 2, 1]);
    let all: Vec<EntityId> = (1_u8..=5).map(|index| span_entity(index, index)).collect();
    assert_eq!(seen, all);
}
