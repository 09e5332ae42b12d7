//! The runtime's clock, its counters, and the worker that keeps records.

use runtime_trail::model::{
    AdmissionTime, AssignedId, Attributes, DistributionPoint, EntityId, InstrumentationScope,
    LogRecord, MetricPoint, Resource, Serial, Span, SpanId, StreamIdentity, TraceContext, TraceId,
};
use runtime_trail::runtime::{
    drain_until, grpc_decoding_ceiling, keep_record, nanos_since, next_reading, pump_next,
    pump_step, retention_tick, tally_of, AdmissionClock, PumpAction, PumpCounters, PumpStep,
    QueuedRecord, RunSummary, RuntimeConfig, StoredRecord, SystemWallClock, WallClock,
};
use runtime_trail::storage::{
    AdmissionKey, Admitted, KeepOutcome, PointView, ScanPage, StoreStats, TelemetryStore,
};
use std::sync::{Arc, Mutex, PoisonError};
use std::time::{Duration, Instant};

#[test]
fn admission_clock_never_repeats_or_steps_back() {
    struct SteppingClock(Mutex<Vec<u64>>);
    impl WallClock for SteppingClock {
        fn reading(&self) -> AdmissionTime {
            let mut steps = self.0.lock().unwrap_or_else(PoisonError::into_inner);
            AdmissionTime::from_unix_nano(steps.remove(0))
        }
    }
    // Readings 100, 100, 90, 200: the wall clock stalls, steps backwards, then
    // jumps forward.
    let clock = AdmissionClock::new(Box::new(SteppingClock(Mutex::new(vec![
        100, 100, 90, 200,
    ]))));
    let first = clock.now().as_unix_nano();
    let second = clock.now().as_unix_nano();
    let third = clock.now().as_unix_nano();
    let fourth = clock.now().as_unix_nano();
    assert_eq!(first, 100);
    assert_eq!(second, 101, "a stalled wall clock still advances");
    assert_eq!(third, 102, "a backwards step never turns the clock back");
    assert_eq!(fourth, 200, "a real step forward is taken");
}

#[test]
fn the_clock_stands_still_only_at_the_last_nanosecond() {
    assert_eq!(next_reading(u64::MAX - 1, 0), u64::MAX);
    assert_eq!(next_reading(u64::MAX, 0), u64::MAX);
    assert_eq!(next_reading(5, 5), 6);
    assert_eq!(next_reading(5, 6), 6);
    assert_eq!(next_reading(5, 7), 7);
}

#[test]
fn a_wall_clock_reading_is_clamped_to_what_can_be_counted() {
    assert_eq!(nanos_since(None), 0, "a clock set before the epoch");
    assert_eq!(nanos_since(Some(Duration::from_secs(2))), 2_000_000_000);
    assert_eq!(nanos_since(Some(Duration::MAX)), u64::MAX);
    assert!(
        SystemWallClock.reading().as_unix_nano() > 1_600_000_000_000_000_000,
        "the system's clock is past the year 2020"
    );
}

#[test]
fn each_outcome_is_counted_under_its_own_name() {
    let counters = PumpCounters::default();
    assert_eq!(counters.summary(0), RunSummary::default());
    counters.observe(&KeepOutcome::Kept { evicted: 3 });
    counters.observe(&KeepOutcome::Kept { evicted: 0 });
    counters.observe(&KeepOutcome::Duplicate);
    counters.observe(&KeepOutcome::Oversized);
    counters.observe(&KeepOutcome::SeriesCapReached);
    counters.observe(&KeepOutcome::IdentityOverCeiling { identity_bytes: 9 });
    counters.observe_dropped(4);
    assert_eq!(
        counters.summary(7),
        RunSummary {
            kept: 2,
            evicted_on_keep: 3,
            duplicates: 1,
            oversized_refusals: 1,
            series_cap_refusals: 1,
            identity_over_ceiling_refusals: 1,
            unknown_outcomes: 0,
            dropped_on_drain: 4,
            refused_forwards: 7,
        }
    );
    let kept = tally_of(&KeepOutcome::Kept { evicted: 3 });
    assert_eq!((kept.kept, kept.evicted_on_keep, kept.duplicates), (1, 3, 0));
}

#[test]
fn an_idle_worker_looks_again_and_a_draining_one_stops() {
    let now = Instant::now();
    let idle = pump_next(None, now);
    assert!(matches!(idle, PumpAction::WaitIdle));
    assert_eq!(pump_step(&idle, false), PumpStep::LookAgain);
    assert_eq!(pump_step(&idle, true), PumpStep::Keep);

    let draining = pump_next(Some(now + Duration::from_secs(5)), now);
    assert!(matches!(draining, PumpAction::Drain(left) if left == Duration::from_secs(5)));
    assert_eq!(pump_step(&draining, true), PumpStep::Keep);
    assert_eq!(pump_step(&draining, false), PumpStep::Stop);

    let over = pump_next(Some(now), now + Duration::from_millis(1));
    assert!(matches!(over, PumpAction::Stop));
    assert_eq!(pump_step(&over, false), PumpStep::Stop);
}

#[test]
fn the_first_request_to_drain_decides_when_the_drain_ends() {
    let first = Instant::now();
    let second = first + Duration::from_secs(1);
    assert_eq!(drain_until(None, first), first);
    assert_eq!(drain_until(Some(first), second), first);
}

#[test]
fn a_framed_message_may_be_larger_than_its_payload() {
    assert_eq!(grpc_decoding_ceiling(4_194_304), Some(4_194_304 + 8_192));
    assert_eq!(grpc_decoding_ceiling(usize::MAX), None);
}

#[test]
fn the_defaults_are_the_documented_numbers() {
    let config = RuntimeConfig::default();
    assert_eq!(config.payload_ceiling_bytes, 4 * 1024 * 1024);
    assert_eq!(config.queue_ceiling_bytes, 64 * 1024 * 1024);
    assert_eq!(config.inflight_body_ceiling_bytes, config.queue_ceiling_bytes);
    assert_eq!(config.body_read_timeout, Duration::from_secs(10));
    assert!(config.clock.reading().as_unix_nano() > 0);
}

/// A store that notes what it is asked, and holds spans for a window.
#[derive(Default)]
struct Notes {
    asked: Vec<String>,
    window: Duration,
    held: Vec<AdmissionTime>,
}

impl TelemetryStore for Notes {
    fn keep_span(&mut self, admitted: Admitted<Arc<Span>>) -> KeepOutcome {
        self.asked.push(format!(
            "span {:?} {} {}",
            admitted.entity,
            admitted.admitted_at.as_unix_nano(),
            admitted.record.name
        ));
        self.held.push(admitted.admitted_at);
        KeepOutcome::Kept { evicted: 1 }
    }

    fn keep_log_record(&mut self, admitted: Admitted<Arc<LogRecord>>) -> KeepOutcome {
        self.asked.push(format!(
            "log {:?} {}",
            admitted.entity,
            admitted.admitted_at.as_unix_nano()
        ));
        KeepOutcome::Duplicate
    }

    fn keep_metric_point(
        &mut self,
        admitted: Admitted<Arc<MetricPoint>>,
        stream: Arc<StreamIdentity>,
    ) -> KeepOutcome {
        self.asked.push(format!(
            "point {:?} {} {}",
            admitted.entity,
            admitted.admitted_at.as_unix_nano(),
            stream.name
        ));
        KeepOutcome::SeriesCapReached
    }

    fn span(&self, _entity: EntityId) -> Option<Arc<Span>> {
        None
    }

    fn log_record(&self, _entity: EntityId) -> Option<Arc<LogRecord>> {
        None
    }

    fn metric_point(&self, _entity: EntityId) -> Option<PointView> {
        None
    }

    fn scan_spans(&self, _after: Option<AdmissionKey>, _limit: usize) -> ScanPage<Arc<Span>> {
        ScanPage {
            items: Vec::new(),
            cursor: None,
        }
    }

    fn scan_log_records(
        &self,
        _after: Option<AdmissionKey>,
        _limit: usize,
    ) -> ScanPage<Arc<LogRecord>> {
        ScanPage {
            items: Vec::new(),
            cursor: None,
        }
    }

    fn scan_metric_points(
        &self,
        _after: Option<AdmissionKey>,
        _limit: usize,
    ) -> ScanPage<PointView> {
        ScanPage {
            items: Vec::new(),
            cursor: None,
        }
    }

    fn enforce_retention(&mut self, now: AdmissionTime) -> u64 {
        self.asked.push(format!("retention {}", now.as_unix_nano()));
        let before = self.held.len();
        let window = self.window;
        self.held.retain(|at| {
            Duration::from_nanos(now.as_unix_nano() - at.as_unix_nano()) <= window
        });
        (before - self.held.len()) as u64
    }

    fn observe_admission_anomalies(&mut self, _total: u64) {}

    fn stats(&self) -> StoreStats {
        StoreStats {
            resident_records: self.held.len() as u64,
            total_evictions: 0,
        }
    }

    fn mode_name(&self) -> &'static str {
        "notes"
    }
}

fn assigned(serial: u64) -> EntityId {
    EntityId::Assigned(AssignedId::from_serial(
        Serial::new(serial).expect("fixture serials are nonzero"),
    ))
}

fn resource() -> Resource {
    Resource {
        attributes: Attributes::empty(),
    }
}

fn scope() -> InstrumentationScope {
    InstrumentationScope {
        name: "scope".to_owned(),
        version: None,
    }
}

fn root_span() -> Span {
    Span {
        context: TraceContext {
            trace_id: TraceId::from_bytes([1; 16]),
            span_id: SpanId::from_bytes([2; 8]),
        },
        parent_span_id: None,
        name: "root".to_owned(),
        start_time_unix_nano: 1,
        end_time_unix_nano: None,
        resource: Arc::new(resource()),
        scope: Arc::new(scope()),
        accounted_size: 10,
    }
}

#[test]
fn a_queued_record_is_kept_as_it_was_queued_and_counted() {
    let mut store = Notes::default();
    let counters = PumpCounters::default();
    let span = Arc::new(root_span());
    let outcome = keep_record(
        &mut store,
        &counters,
        QueuedRecord {
            entity: assigned(1),
            admitted_at: AdmissionTime::from_unix_nano(100),
            record: StoredRecord::Span(span),
        },
    );
    assert_eq!(outcome, KeepOutcome::Kept { evicted: 1 });
    let log = Arc::new(LogRecord {
        timestamp_unix_nano: None,
        observed_timestamp_unix_nano: None,
        severity_number: None,
        body: None,
        resource: Arc::new(resource()),
        scope: Arc::new(scope()),
        trace_id: None,
        span_id: None,
        accounted_size: 10,
    });
    let outcome = keep_record(
        &mut store,
        &counters,
        QueuedRecord {
            entity: assigned(2),
            admitted_at: AdmissionTime::from_unix_nano(200),
            record: StoredRecord::Log(log),
        },
    );
    assert_eq!(outcome, KeepOutcome::Duplicate);
    let outcome = keep_record(
        &mut store,
        &counters,
        QueuedRecord {
            entity: assigned(3),
            admitted_at: AdmissionTime::from_unix_nano(300),
            record: StoredRecord::Point {
                stream: Arc::new(StreamIdentity {
                    resource: resource(),
                    scope: scope(),
                    name: "cpu".to_owned(),
                }),
                point: Arc::new(MetricPoint::Summary(DistributionPoint {
                    time_unix_nano: 5,
                    accounted_size: 10,
                })),
            },
        },
    );
    assert_eq!(outcome, KeepOutcome::SeriesCapReached);
    assert_eq!(
        store.asked,
        vec![
            format!("span {:?} 100 root", assigned(1)),
            format!("log {:?} 200", assigned(2)),
            format!("point {:?} 300 cpu", assigned(3)),
        ]
    );
    let summary = counters.summary(0);
    assert_eq!(
        (
            summary.kept,
            summary.evicted_on_keep,
            summary.duplicates,
            summary.series_cap_refusals
        ),
        (1, 1, 1, 1)
    );
}

#[test]
fn retention_tick_expires_records_outside_the_window() {
    let now = AdmissionTime::from_unix_nano(1_000);
    let mut store = Notes {
        window: Duration::from_secs(10),
        ..Notes::default()
    };
    let _kept = store.keep_span(Admitted {
        entity: assigned(1),
        admitted_at: now,
        record: Arc::new(root_span()),
    });

    // Five seconds in, the record is inside the window and stays.
    let inside = now.as_unix_nano() + 5_000_000_000;
    assert_eq!(
        retention_tick(&mut store, AdmissionTime::from_unix_nano(inside)),
        0
    );
    assert_eq!(store.stats().resident_records, 1);

    // Eleven seconds in, the record is outside the window and leaves.
    let outside = now.as_unix_nano() + 11_000_000_000;
    assert_eq!(
        retention_tick(&mut store, AdmissionTime::from_unix_nano(outside)),
        1
    );
    assert_eq!(store.stats().resident_records, 0);
    assert_eq!(
        store.asked[1..],
        [
            "retention 5000001000".to_owned(),
            "retention 11000001000".to_owned()
        ]
    );
}

#[test]
fn fresh_counters_have_counted_nothing() {
    assert_eq!(
        PumpCounters::default().summary(7),
        RunSummary {
            refused_forwards: 7,
            ..RunSummary::default()
        }
    );
}

#[test]
fn the_named_counters_add_up_to_the_outcomes() {
    let counters = PumpCounters::default();
    let outcomes = [
        KeepOutcome::Kept { evicted: 2 },
        KeepOutcome::Duplicate,
        KeepOutcome::Kept { evicted: 5 },
        KeepOutcome::Oversized,
        KeepOutcome::SeriesCapReached,
        KeepOutcome::IdentityOverCeiling { identity_bytes: 1 },
    ];
    for outcome in &outcomes {
        counters.observe(outcome);
    }
    let summary = counters.summary(0);
    assert_eq!(
        summary.kept
            + summary.duplicates
            + summary.oversized_refusals
            + summary.series_cap_refusals
            + summary.identity_over_ceiling_refusals
            + summary.unknown_outcomes,
        outcomes.len() as u64
    );
    assert_eq!(summary.evicted_on_keep, 7);
    assert_eq!(summary.dropped_on_drain, 0);
}

#[test]
fn a_counted_outcome_shows_in_the_next_summary() {
    let counters = PumpCounters::default();
    counters.observe(&KeepOutcome::Duplicate);
    counters.observe_dropped(2);
    let before = counters.summary(0);
    counters.observe(&KeepOutcome::Kept { evicted: 4 });
    assert_eq!(
        counters.summary(0),
        RunSummary {
            kept: before.kept + 1,
            evicted_on_keep: before.evicted_on_keep + 4,
            ..before
        }
    );
}

#[test]
fn the_default_clock_reads_the_system_time() {
    let nanos = |reading: std::time::SystemTime| {
        reading
            .duration_since(std::time::UNIX_EPOCH)
            .expect("after the epoch")
            .as_nanos()
    };
    let earliest = nanos(std::time::SystemTime::now());
    let reading = RuntimeConfig::default().clock.reading().as_unix_nano();
    assert!(u128::from(reading) >= earliest);
    assert!(u128::from(reading) <= nanos(std::time::SystemTime::now()));
}
