//! What filters select, and how they are encoded.

use runtime_trail::engine::RecordView;
use runtime_trail::filters::{
    LogFilters, MetricFilters, ScopeFilter, ServiceFilter, SeverityFilter, SpanFilters,
    TimeRangeFilter, ABSENT,
};
use runtime_trail::model::{
    Attributes, InstrumentationScope, LogRecord, MetricNumber, MetricPoint, NumberPoint, Resource,
    SeverityNumber, Span, SpanId, StreamIdentity, TraceContext, TraceId, AnyValue,
};
use std::sync::Arc;

fn resource(service: Option<&str>) -> Resource {
    let attributes = match service {
        Some(name) => Attributes::from_pairs(vec![(
            "service.name".to_owned(),
            AnyValue::String(name.to_owned()),
        )])
        .expect("one key"),
        None => Attributes::empty(),
    };
    Resource { attributes }
}

fn scope(name: &str, version: Option<&str>) -> InstrumentationScope {
    InstrumentationScope {
        name: name.to_owned(),
        version: version.map(str::to_owned),
    }
}

fn span_view(service: Option<&str>, scope: &InstrumentationScope, start: u64) -> RecordView {
    RecordView::Span(Arc::new(Span {
        context: TraceContext {
            trace_id: TraceId::from_bytes([1; 16]),
            span_id: SpanId::from_bytes([2; 8]),
        },
        parent_span_id: None,
        name: "span".to_owned(),
        start_time_unix_nano: start,
        end_time_unix_nano: None,
        resource: Arc::new(resource(service)),
        scope: Arc::new(scope.clone()),
        accounted_size: 1,
    }))
}

fn log_view(
    service: Option<&str>,
    scope: &InstrumentationScope,
    timestamp: Option<u64>,
    observed: Option<u64>,
    severity: Option<SeverityNumber>,
) -> RecordView {
    RecordView::LogRecord(Arc::new(LogRecord {
        timestamp_unix_nano: timestamp,
        observed_timestamp_unix_nano: observed,
        severity_number: severity,
        body: None,
        resource: Arc::new(resource(service)),
        scope: Arc::new(scope.clone()),
        trace_id: None,
        span_id: None,
        accounted_size: 1,
    }))
}

fn point_view(service: Option<&str>, scope: &InstrumentationScope, time: u64) -> RecordView {
    RecordView::MetricPoint {
        point: Arc::new(MetricPoint::Number(NumberPoint {
            time_unix_nano: time,
            value: MetricNumber::Int(1),
            accounted_size: 1,
        })),
        stream: Arc::new(StreamIdentity {
            resource: resource(service),
            scope: scope.clone(),
            name: "requests".to_owned(),
        }),
    }
}

#[test]
fn service_matches_exactly_and_a_missing_name_matches_nothing() {
    let scope = scope("s", None);
    let filter = ServiceFilter::new("checkout");
    assert!(filter.matches(&span_view(Some("checkout"), &scope, 10)));
    assert!(!filter.matches(&span_view(Some("payments"), &scope, 10)));
    assert!(
        !filter.matches(&span_view(None, &scope, 10)),
        "no service.name matches nothing under a set filter"
    );
    assert!(
        !filter.matches(&log_view(None, &scope, None, None, None)),
        "the same rule for logs"
    );
    assert!(
        !filter.matches(&point_view(None, &scope, 10)),
        "and for points, whose service rides the stream identity"
    );
    // An empty value under a present key is a value, distinct from the
    // key's absence.
    assert!(!filter.matches(&span_view(Some(""), &scope, 10)));
    assert!(ServiceFilter::new("").matches(&span_view(Some(""), &scope, 10)));
}

#[test]
fn time_range_is_half_open_and_excludes_records_without_a_time_key() {
    let scope = scope("s", None);
    let window = TimeRangeFilter::new(100, 200);
    assert!(
        window.matches(&span_view(Some("a"), &scope, 100)),
        "from in"
    );
    assert!(window.matches(&span_view(Some("a"), &scope, 199)));
    assert!(
        !window.matches(&span_view(Some("a"), &scope, 200)),
        "to out"
    );
    assert!(!window.matches(&span_view(Some("a"), &scope, 99)));

    let no_time = log_view(Some("a"), &scope, None, None, None);
    assert!(
        !window.matches(&no_time),
        "no timestamp and no observation time: outside any bounded range"
    );
    assert!(
        !TimeRangeFilter::new(0, u64::MAX).matches(&no_time),
        "even the widest bounded range excludes it"
    );
}

#[test]
fn filters_each_kind_filters_on_its_own_model_timestamp() {
    let scope = scope("s", None);
    let window = TimeRangeFilter::new(100, 200);
    // The observation timestamp is the fallback, never the primary.
    assert!(window.matches(&log_view(Some("a"), &scope, None, Some(150), None)));
    assert!(!window.matches(&log_view(Some("a"), &scope, None, Some(250), None)));
    assert!(
        !window.matches(&log_view(Some("a"), &scope, Some(50), Some(150), None)),
        "the event timestamp wins when both were sent"
    );
    assert!(window.matches(&point_view(Some("a"), &scope, 150)));
    assert!(!window.matches(&point_view(Some("a"), &scope, 200)));
    assert!(!window.matches(&point_view(Some("a"), &scope, 99)));
}

#[test]
fn severity_is_a_minimum_and_absent_severity_is_outside() {
    let scope = scope("s", None);
    let filter = SeverityFilter::new(SeverityNumber::try_new(9).expect("in domain"));
    let at = SeverityNumber::try_new(9).expect("in domain");
    let above = SeverityNumber::try_new(10).expect("in domain");
    let below = SeverityNumber::try_new(8).expect("in domain");
    assert!(filter.matches(&log_view(Some("a"), &scope, None, None, Some(at))));
    assert!(filter.matches(&log_view(Some("a"), &scope, None, None, Some(above))));
    assert!(!filter.matches(&log_view(Some("a"), &scope, None, None, Some(below))));
    assert!(
        !filter.matches(&log_view(Some("a"), &scope, None, None, None)),
        "no severity number: outside"
    );
}

#[test]
fn scope_matches_exact_name_and_version_including_absence() {
    let checkout = ScopeFilter::new("scope", Some("1.2.3".to_owned()));
    let versionless = ScopeFilter::new("scope", None);
    assert!(checkout.matches(&span_view(None, &scope("scope", Some("1.2.3")), 10)));
    assert!(
        !checkout.matches(&span_view(None, &scope("scope", Some("1.2.4")), 10)),
        "a different version is a different scope"
    );
    assert!(
        !checkout.matches(&span_view(None, &scope("scope", None), 10)),
        "a present filter version does not match an absent one"
    );
    assert!(versionless.matches(&span_view(None, &scope("scope", None), 10)));
    assert!(
        !versionless.matches(&span_view(None, &scope("scope", Some("")), 10)),
        "absent is not the empty string"
    );
    assert!(
        !versionless.matches(&span_view(None, &scope("other", None), 10)),
        "the name still has to match"
    );
}

#[test]
fn all_none_filters_match_everything() {
    let scope = scope("s", None);
    assert!(SpanFilters::all_none().matches(&span_view(Some("a"), &scope, 10)));
    assert!(LogFilters::all_none().matches(&log_view(None, &scope, None, None, None)));
    assert!(MetricFilters::all_none().matches(&point_view(None, &scope, 10)));
}

#[test]
fn span_and_metric_filters_carry_no_severity_field() {
    let span = SpanFilters {
        service: None,
        time_range: None,
        scope: None,
    };
    let metric = MetricFilters {
        service: None,
        time_range: None,
        scope: None,
    };
    assert_eq!(span, SpanFilters::all_none());
    assert_eq!(metric, MetricFilters::all_none());
}

#[test]
fn canonical_encodings_distinguish_every_filter_set() {
    fn span_bytes(filters: &SpanFilters) -> Vec<u8> {
        let mut bytes = Vec::new();
        filters.push_canonical(&mut bytes);
        bytes
    }

    let empty = span_bytes(&SpanFilters::all_none());
    let replay = span_bytes(&SpanFilters::all_none());
    assert_eq!(empty, replay, "the encoding is deterministic");
    assert_eq!(empty, vec![ABSENT, ABSENT, ABSENT]);

    let service = span_bytes(&SpanFilters {
        service: Some(ServiceFilter::new("a")),
        time_range: None,
        scope: None,
    });
    assert_ne!(empty, service);

    // Two sets whose only difference is inside string content: the
    // length prefixes keep them distinct byte strings.
    let hostile = span_bytes(&SpanFilters {
        service: Some(ServiceFilter::new("\u{1}b")),
        time_range: None,
        scope: None,
    });
    let innocent = span_bytes(&SpanFilters {
        service: None,
        time_range: None,
        scope: Some(ScopeFilter::new("b", None)),
    });
    assert_ne!(hostile, innocent, "no structural collision");
}
