//! How an investigation is asked for, and how its answer is written.

use runtime_trail::engine::SignalKind;
use runtime_trail::investigation::{
    admitted_chain, ChainBasis, ChainSpend, Correlated, EffectiveRoot, EffectiveSubject, Evidence,
    EvidenceFact, EvictionState, FlowCoverageEntry, FlowError, FlowExecution, Investigation,
    InvestigationBudget, Limits, LogEvidence, PartName, PointEvidence, Relation, RelationType,
    RequestedSubject, ResolutionNote, RunFacts, RunGroup, SignalRef, SpanEvidence,
    StrategyVersion, Subject, TimeWindow,
};
use runtime_trail::investigation_http::{
    answer, entity_text, parse_entity, parse_subject, read_failure, refused_unread,
    render_entity, render_investigation, render_magnitude, render_model_value, render_point,
    requested, requested_subject,
};
use runtime_trail::model::{
    AdmissionTime, AnyValue, AssignedId, Attributes, DistributionPoint, EntityId,
    InstrumentationScope, LogRecord, MetricNumber, MetricPoint, NumberPoint, Resource, Serial,
    Span, SpanId, StreamIdentity, TraceContext, TraceId,
};
use runtime_trail::result::{
    BudgetRefusal, CoverageEntry, Dimension, Magnitude, PartOutcome, Truncation, TruncationPoint,
};
use runtime_trail::storage::AdmissionKey;
use serde_json::Value;
use std::sync::Arc;
use std::time::Duration;

const TRACE_ID_HEX: &str = "01010101010101010101010101010101";
const SPAN_ID_HEX: &str = "1111111111111111";

fn json(text: &str) -> Value {
    serde_json::from_str(text).expect("the fixture is JSON")
}

fn span_entity() -> EntityId {
    EntityId::Span {
        trace_id: TraceId::from_bytes([0x01; 16]),
        span_id: SpanId::from_bytes([0x11; 8]),
    }
}

fn assigned(serial: u64) -> EntityId {
    EntityId::Assigned(AssignedId::from_serial(
        Serial::new(serial).expect("fixture serials are nonzero"),
    ))
}

#[test]
fn a_request_names_a_span_by_its_ids() {
    let body = format!(
        r#"{{"root_span": {{"span": {{"trace_id": "{TRACE_ID_HEX}", "span_id": "{SPAN_ID_HEX}"}}}}}}"#
    );
    assert_eq!(parse_subject(body.as_bytes()), Ok(span_entity()));
    let request = requested(body.as_bytes(), 4_194_304).expect("it is a request");
    assert_eq!(request.root_span, span_entity());
    assert_eq!(
        request.budget,
        InvestigationBudget {
            deadline: Duration::from_secs(30),
            max_results: 1_000,
            max_bytes: 4_194_304,
            max_scan: 100_000,
            max_aggregation_memory: 4_194_304,
        }
    );
}

#[test]
fn a_request_names_an_assigned_record_by_its_serial() {
    assert_eq!(
        parse_subject(br#"{"root_span": {"assigned": 7}}"#),
        Ok(assigned(7))
    );
    assert_eq!(
        parse_subject(br#"{"root_span": {"assigned": 18446744073709551615}}"#),
        Ok(assigned(u64::MAX))
    );
}

#[test]
fn the_chain_ceilings_are_the_documented_numbers() {
    let chain = admitted_chain();
    assert_eq!(
        (
            chain.max_total_pages,
            chain.max_total_entities,
            chain.max_identity_examinations
        ),
        (16, 10_000, 100_000)
    );
}

fn refused(body: &str) -> String {
    let answer = requested(body.as_bytes(), 10).expect_err("it is refused");
    assert_eq!(answer.status, 400);
    let error = answer.body["error"].as_str().expect("a text").to_owned();
    assert_eq!(parse_subject(body.as_bytes()), Err(error.clone()));
    error
}

#[test]
fn a_malformed_body_is_a_400() {
    assert!(refused("{not json").contains("not a JSON object"));
    assert_eq!(refused("{not json"), "the request body is not a JSON object");
    assert_eq!(refused("[]"), "the request must name a root_span");
    assert_eq!(refused("{}"), "the request must name a root_span");
}

#[test]
fn a_subject_that_names_nothing_is_refused_with_the_reason() {
    let neither = "an entity is {\"span\": …} or {\"assigned\": <serial>}";
    assert_eq!(refused(r#"{"root_span": {}}"#), neither);
    assert_eq!(refused(r#"{"root_span": 3}"#), neither);
    assert_eq!(refused(r#"{"root_span": {"assigned": -1}}"#), neither);
    assert_eq!(refused(r#"{"root_span": {"assigned": 1.5}}"#), neither);
    assert_eq!(refused(r#"{"root_span": {"assigned": "7"}}"#), neither);
    assert_eq!(
        refused(r#"{"root_span": {"assigned": 0}}"#),
        "an assigned serial starts at 1"
    );
    assert_eq!(
        refused(r#"{"root_span": {"span": {}, "assigned": 7}}"#),
        "a span subject needs trace_id (32 lowercase hex)"
    );
    assert_eq!(
        refused(r#"{"root_span": {"span": {"trace_id": "x"}}}"#),
        "a span subject needs span_id (16 lowercase hex)"
    );
    assert_eq!(
        refused(r#"{"root_span": {"span": {"trace_id": "x", "span_id": 3}}}"#),
        "a span subject needs span_id (16 lowercase hex)"
    );
}

fn refused_ids(trace_id: &str, span_id: &str) -> String {
    refused(&format!(
        r#"{{"root_span": {{"span": {{"trace_id": "{trace_id}", "span_id": "{span_id}"}}}}}}"#
    ))
}

#[test]
fn an_id_that_is_no_hexadecimal_is_refused_with_the_reason() {
    assert_eq!(
        refused_ids("0101", SPAN_ID_HEX),
        "trace_id must be 16 bytes, i.e. 32 lowercase hex characters"
    );
    assert_eq!(
        refused_ids(TRACE_ID_HEX, "11"),
        "span_id must be 8 bytes, i.e. 16 lowercase hex characters"
    );
    assert_eq!(
        refused_ids("0101010101010101010101010101010G", SPAN_ID_HEX),
        "hex ids use 0-9 and a-f, but the value contains 'G'"
    );
    assert_eq!(
        refused_ids(TRACE_ID_HEX, "11111111111111é"),
        "hex ids use 0-9 and a-f, but the value contains 'Ã'"
    );
}

#[test]
fn an_identity_reads_back_as_it_was_written() {
    for entity in [span_entity(), assigned(1), assigned(u64::MAX)] {
        assert_eq!(parse_entity(&render_entity(&entity)), Ok(entity));
    }
    assert_eq!(
        render_entity(&span_entity()),
        json(&format!(
            r#"{{"span": {{"trace_id": "{TRACE_ID_HEX}", "span_id": "{SPAN_ID_HEX}"}}}}"#
        ))
    );
    assert_eq!(render_entity(&assigned(7)), json(r#"{"assigned": 7}"#));
}

#[test]
fn an_identity_in_words() {
    assert_eq!(
        entity_text(&span_entity()),
        format!("span {TRACE_ID_HEX}:{SPAN_ID_HEX}")
    );
    assert_eq!(entity_text(&assigned(1_234_567_890)), "assigned 1234567890");
}

#[test]
fn values_are_shown_as_scalars_or_not_at_all() {
    let double = json("1.5");
    let shown = |value: AnyValue| render_model_value(&value, &double);
    assert_eq!(shown(AnyValue::String("a".to_owned())), json(r#""a""#));
    assert_eq!(shown(AnyValue::Int(-3)), json("-3"));
    assert_eq!(shown(AnyValue::Double(1.5_f64.to_bits())), json("1.5"));
    assert_eq!(shown(AnyValue::Bool(true)), json("true"));
    assert_eq!(shown(AnyValue::Bytes(vec![0xde, 0xad])), json(r#""dead""#));
    assert_eq!(shown(AnyValue::Array(vec![AnyValue::Int(1)])), Value::Null);
    assert_eq!(shown(AnyValue::KvList(Vec::new())), Value::Null);
}

#[test]
fn points_are_shown_by_their_shape() {
    let distribution = DistributionPoint {
        time_unix_nano: 1,
        accounted_size: 1,
    };
    let number = |value: MetricNumber| {
        MetricPoint::Number(NumberPoint {
            time_unix_nano: 10,
            value,
            accounted_size: 1,
        })
    };
    let double = json("2.25");
    assert_eq!(
        render_point(&number(MetricNumber::Int(5)), &double),
        json(r#"{"shape": "number", "time_unix_nano": 10, "value": {"int": 5}}"#)
    );
    assert_eq!(
        render_point(&number(MetricNumber::Double(2.25_f64.to_bits())), &double),
        json(r#"{"shape": "number", "time_unix_nano": 10, "value": {"double": 2.25}}"#)
    );
    assert_eq!(
        render_point(&MetricPoint::Histogram(distribution.clone()), &double),
        json(r#"{"shape": "histogram"}"#)
    );
    assert_eq!(
        render_point(&MetricPoint::ExponentialHistogram(distribution.clone()), &double),
        json(r#"{"shape": "exponential_histogram"}"#)
    );
    assert_eq!(
        render_point(&MetricPoint::Summary(distribution), &double),
        json(r#"{"shape": "summary"}"#)
    );
}

#[test]
fn magnitudes_are_shown_in_their_units() {
    assert_eq!(
        render_magnitude(&Magnitude::Duration(Duration::from_micros(2_999))),
        Some(json(r#"{"duration_ms": 2}"#))
    );
    assert_eq!(
        render_magnitude(&Magnitude::Units(3)),
        Some(json(r#"{"units": 3}"#))
    );
    assert_eq!(
        render_magnitude(&Magnitude::Bytes(4)),
        Some(json(r#"{"bytes": 4}"#))
    );
    assert_eq!(render_magnitude(&Magnitude::Duration(Duration::MAX)), None);
}

fn resource() -> Resource {
    Resource {
        attributes: Attributes::empty(),
    }
}

fn scope() -> InstrumentationScope {
    InstrumentationScope {
        name: "scope".to_owned(),
        version: None,
    }
}

fn investigation(observed: Duration) -> Investigation {
    let span = Arc::new(Span {
        context: TraceContext {
            trace_id: TraceId::from_bytes([0x01; 16]),
            span_id: SpanId::from_bytes([0x11; 8]),
        },
        parent_span_id: Some(SpanId::from_bytes([0x22; 8])),
        name: "root".to_owned(),
        start_time_unix_nano: 10,
        end_time_unix_nano: Some(20),
        resource: Arc::new(resource()),
        scope: Arc::new(scope()),
        accounted_size: 1,
    });
    let log = Arc::new(LogRecord {
        timestamp_unix_nano: Some(12),
        observed_timestamp_unix_nano: None,
        severity_number: None,
        body: Some(AnyValue::String("related".to_owned())),
        resource: Arc::new(resource()),
        scope: Arc::new(scope()),
        trace_id: Some(TraceId::from_bytes([0x01; 16])),
        span_id: None,
        accounted_size: 1,
    });
    let window = TimeWindow { from: 1, to: 2 };
    Investigation {
        subject: Subject {
            requested: RequestedSubject {
                root_span: span_entity(),
            },
            effective: EffectiveSubject {
                root: EffectiveRoot {
                    entity: span_entity(),
                    name: "root".to_owned(),
                    trace_id: TraceId::from_bytes([0x01; 16]),
                    span_id: SpanId::from_bytes([0x11; 8]),
                },
                notes: vec![
                    ResolutionNote::RequestedSpanIsRoot,
                    ResolutionNote::TraceRootedAt {
                        entity: assigned(2),
                        name: "other".to_owned(),
                        span_id: SpanId::from_bytes([0x22; 8]),
                    },
                    ResolutionNote::NoParentlessSpanResident,
                    ResolutionNote::RootHasNoValidTraceIdentity,
                ],
            },
        },
        execution: FlowExecution {
            run_groups: vec![
                RunGroup {
                    part: PartName::Spans,
                    runs: vec![
                        RunFacts {
                            outcome: PartOutcome::Complete,
                            coverage: vec![CoverageEntry::EvictionGap {
                                after: assigned(1),
                                before: assigned(2),
                            }],
                            next_cursor: None,
                        },
                        RunFacts {
                            outcome: PartOutcome::Degraded {
                                truncation: Truncation {
                                    dimension: Dimension::Results,
                                    position: TruncationPoint::Cursor(vec![0xab]),
                                    omitted: 3,
                                },
                            },
                            coverage: vec![CoverageEntry::SnapshotBoundary {
                                admission: AdmissionKey::new(
                                    AdmissionTime::from_unix_nano(9),
                                    assigned(3),
                                ),
                            }],
                            next_cursor: Some(vec![0xab]),
                        },
                    ],
                },
                RunGroup {
                    part: PartName::RelatedLogs,
                    runs: vec![RunFacts {
                        outcome: PartOutcome::Refused(BudgetRefusal {
                            dimension: Dimension::Deadline,
                            limit: Magnitude::Duration(Duration::from_secs(1)),
                            observed: Magnitude::Duration(observed),
                        }),
                        coverage: vec![CoverageEntry::UncountedTail {
                            after: assigned(4),
                            dimension: Dimension::Scan,
                        }],
                        next_cursor: None,
                    }],
                },
                RunGroup {
                    part: PartName::SurroundingMetrics,
                    runs: vec![
                        RunFacts {
                            outcome: PartOutcome::Stalled,
                            coverage: vec![CoverageEntry::DriverStall { after: assigned(5) }],
                            next_cursor: None,
                        },
                        RunFacts {
                            outcome: PartOutcome::Degraded {
                                truncation: Truncation {
                                    dimension: Dimension::Bytes,
                                    position: TruncationPoint::LastExamined(assigned(6)),
                                    omitted: 0,
                                },
                            },
                            coverage: Vec::new(),
                            next_cursor: None,
                        },
                    ],
                },
            ],
            flow_coverage: vec![
                FlowCoverageEntry::MetricWindow {
                    asked: window,
                    resident: TimeWindow { from: 3, to: 4 },
                },
                FlowCoverageEntry::AdmissionAnomalies { total: 5 },
                FlowCoverageEntry::ResidencyHole {
                    part: PartName::Spans,
                    count: 6,
                },
            ],
        },
        correlated: Correlated {
            relations: vec![Relation {
                relation_type: RelationType::ParentChild,
                from: SignalRef {
                    kind: SignalKind::Spans,
                    entity: assigned(1),
                },
                to: SignalRef {
                    kind: SignalKind::LogRecords,
                    entity: assigned(2),
                },
                facts: vec![EvidenceFact {
                    field: "field".to_owned(),
                    value: AnyValue::Double(0.5_f64.to_bits()),
                    double: json("0.5"),
                }],
                strategy: StrategyVersion {
                    name: "strategy".to_owned(),
                    version: 1,
                },
                window: Some(window),
            }],
        },
        evidence: Evidence {
            spans: vec![SpanEvidence {
                entity: Some(span_entity()),
                span,
            }],
            logs: vec![LogEvidence {
                entity: None,
                log,
                double: Value::Null,
            }],
            points: vec![PointEvidence {
                entity: Some(assigned(8)),
                point: Arc::new(MetricPoint::Number(NumberPoint {
                    time_unix_nano: 10,
                    value: MetricNumber::Int(1),
                    accounted_size: 1,
                })),
                stream: Arc::new(StreamIdentity {
                    resource: resource(),
                    scope: scope(),
                    name: "cpu.seconds".to_owned(),
                }),
                double: Value::Null,
            }],
        },
        limits: Limits {
            budget: InvestigationBudget {
                deadline: Duration::from_secs(30),
                max_results: 1,
                max_bytes: 2,
                max_scan: 3,
                max_aggregation_memory: 4,
            },
            chain: ChainSpend {
                max_total_entities: 5,
                max_total_pages: 6,
                total_entities: 7,
                total_pages: 8,
                identity_examinations: 9,
                stopped: Some(ChainBasis::TotalPages),
            },
            strategy_versions: vec![StrategyVersion {
                name: "strategy".to_owned(),
                version: 1,
            }],
            eviction: EvictionState {
                resident_records: 10,
                total_evictions: 11,
            },
        },
    }
}

const ENVELOPE: &str = r#"{
  "subject": {
    "requested": {"root_span": {"span": {"trace_id": "01010101010101010101010101010101", "span_id": "1111111111111111"}}},
    "effective": {
      "root": {
        "entity": {"span": {"trace_id": "01010101010101010101010101010101", "span_id": "1111111111111111"}},
        "name": "root",
        "trace_id": "01010101010101010101010101010101",
        "span_id": "1111111111111111"
      },
      "notes": [
        {"kind": "requested_span_is_root"},
        {"kind": "trace_rooted_at", "entity": {"assigned": 2}, "name": "other", "span_id": "2222222222222222"},
        {"kind": "no_parentless_span_resident"},
        {"kind": "root_has_no_valid_trace_identity"}
      ]
    }
  },
  "execution": {
    "run_groups": [
      {"part": "spans", "runs": [
        {"outcome": {"kind": "complete"},
         "coverage": [{"kind": "eviction_gap", "after": {"assigned": 1}, "before": {"assigned": 2}}],
         "next_cursor": null},
        {"outcome": {"kind": "degraded", "truncation": {"dimension": "results", "position": {"cursor": {"hex": "ab"}}, "omitted": 3}},
         "coverage": [{"kind": "snapshot_boundary", "admission_time_unix_nano": 9, "entity": {"assigned": 3}}],
         "next_cursor": {"hex": "ab"}}
      ]},
      {"part": "related_logs", "runs": [
        {"outcome": {"kind": "refused", "refusal": {"dimension": "deadline", "limit": {"duration_ms": 1000}, "observed": {"duration_ms": 1500}}},
         "coverage": [{"kind": "uncounted_tail", "after": {"assigned": 4}, "dimension": "scan"}],
         "next_cursor": null}
      ]},
      {"part": "surrounding_metrics", "runs": [
        {"outcome": {"kind": "stalled"},
         "coverage": [{"kind": "driver_stall", "after": {"assigned": 5}}],
         "next_cursor": null},
        {"outcome": {"kind": "degraded", "truncation": {"dimension": "bytes", "position": {"last_examined": {"assigned": 6}}, "omitted": 0}},
         "coverage": [],
         "next_cursor": null}
      ]}
    ],
    "flow_coverage": [
      {"kind": "metric_window", "asked": {"from": 1, "to": 2}, "resident": {"from": 3, "to": 4}},
      {"kind": "admission_anomalies", "total": 5},
      {"kind": "residency_hole", "part": "spans", "count": 6}
    ]
  },
  "correlated": {
    "relations": [
      {"type": "parent_child",
       "from": {"kind": "spans", "entity": {"assigned": 1}},
       "to": {"kind": "log_records", "entity": {"assigned": 2}},
       "facts": [{"field": "field", "value": 0.5}],
       "strategy": {"name": "strategy", "version": 1},
       "window": {"from": 1, "to": 2}}
    ]
  },
  "evidence": {
    "spans": [
      {"entity": {"span": {"trace_id": "01010101010101010101010101010101", "span_id": "1111111111111111"}},
       "span": {"trace_id": "01010101010101010101010101010101", "span_id": "1111111111111111",
                "parent_span_id": "2222222222222222", "name": "root",
                "start_time_unix_nano": 10, "end_time_unix_nano": 20}}
    ],
    "logs": [
      {"entity": null,
       "log": {"timestamp_unix_nano": 12, "observed_timestamp_unix_nano": null, "body": "related",
               "trace_id": "01010101010101010101010101010101", "span_id": null}}
    ],
    "points": [
      {"entity": {"assigned": 8},
       "point": {"shape": "number", "time_unix_nano": 10, "value": {"int": 1}},
       "stream": {"name": "cpu.seconds"}}
    ]
  },
  "limits": {
    "budget": {"deadline_ms": 30000, "max_results": 1, "max_bytes": 2, "max_scan": 3, "max_aggregation_memory": 4},
    "chain": {"max_total_entities": 5, "max_total_pages": 6, "total_entities": 7, "total_pages": 8,
              "identity_examinations": 9, "stopped": "total_pages"},
    "strategy_versions": [{"name": "strategy", "version": 1}],
    "eviction": {"resident_records": 10, "total_evictions": 11}
  }
}"#;

#[test]
fn an_envelope_is_written_part_by_part() {
    let envelope = investigation(Duration::from_millis(1_500));
    let written = render_investigation(&envelope).expect("its durations can be shown");
    assert_eq!(written, json(ENVELOPE));
    let answer = answer(&Ok(envelope)).expect("its durations can be shown");
    assert_eq!(answer.status, 200);
    assert_eq!(answer.body, json(ENVELOPE));
    assert!(answer.body.get("error").is_none());
}

#[test]
fn what_an_answer_says_was_asked_can_be_asked_again() {
    let written =
        render_investigation(&investigation(Duration::ZERO)).expect("its durations can be shown");
    assert_eq!(
        requested_subject(&written["subject"]["requested"]),
        Ok(span_entity())
    );
}

#[test]
fn a_duration_that_cannot_be_shown_leaves_no_answer() {
    assert!(render_investigation(&investigation(Duration::MAX)).is_none());
    assert!(answer(&Ok(investigation(Duration::MAX))).is_none());
    let mut envelope = investigation(Duration::ZERO);
    envelope.limits.budget.deadline = Duration::MAX;
    assert!(render_investigation(&envelope).is_none());
}

#[test]
fn an_unresolvable_subject_is_a_404() {
    let answer = answer(&Err(FlowError::SubjectUnresolved {
        requested: span_entity(),
    }))
    .expect("an error has an answer");
    assert_eq!(answer.status, 404);
    let error = answer.body["error"].as_str().expect("a text");
    assert!(
        error.contains("never admitted"),
        "the error names the reason: {error}"
    );
    assert_eq!(
        error,
        format!(
            "no resident record carries the requested subject (span {TRACE_ID_HEX}:{SPAN_ID_HEX}) \
             — it was never admitted, or evicted"
        )
    );
}

#[test]
fn a_broken_contract_is_a_500() {
    for (error, reason) in [
        (
            FlowError::CursorRejected,
            "the flow rejected an engine continuation cursor — an internal contract violation; \
             nothing was fabricated",
        ),
        (
            FlowError::EngineContract,
            "the engine returned an answer the envelope contract cannot hold — an internal \
             contract violation; nothing was fabricated",
        ),
    ] {
        let answer = answer(&Err(error)).expect("an error has an answer");
        assert_eq!(answer.status, 500);
        assert_eq!(answer.body["error"], reason);
    }
}

#[test]
fn an_investigation_is_refused_unread_for_its_declared_length() {
    assert!(refused_unread(Some("10"), 10).is_none());
    assert!(refused_unread(None, 10).is_none());
    let answer = refused_unread(Some("11"), 10).expect("it is refused");
    assert_eq!(answer.status, 413);
    assert_eq!(
        answer.body["error"],
        "the investigation request exceeds the 10-byte ceiling; refused before reading, \
         non-retryable"
    );
}

#[test]
fn a_body_that_does_not_arrive_is_a_408_or_a_400() {
    let late = read_failure(true);
    assert_eq!(late.status, 408);
    assert_eq!(
        late.body["error"],
        "the request body did not arrive in full within the read deadline; nothing was parsed \
         or investigated"
    );
    let broken = read_failure(false);
    assert_eq!(broken.status, 400);
    assert_eq!(
        broken.body["error"],
        "the request body could not be read in full; nothing was parsed or investigated"
    );
}
