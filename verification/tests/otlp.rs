//! What exports are answered, over HTTP and over gRPC.

use runtime_trail::otlp_grpc::{
    body_read_timeout_status, inflight_over_budget_status, is_grpc_content_type, reply, route,
    signal_to_status, unimplemented_status, Route, StatusCode,
};
use runtime_trail::otlp_http::{
    answer, content_type_gate, declared_over_ceiling, inflight_over_budget, read_failure,
    refused_unread, rejected_count, rejected_summary, AdmissionSignal, Answer, BudgetRejection,
    ExportOutcome, PartialSuccess, ReadFailure, RecordOutcome,
};

const CEILING: usize = 4_194_304;

fn refusal(answer: Answer) -> (u16, String, bool) {
    match answer {
        Answer::Refusal {
            status,
            message,
            retryable,
        } => (status, message, retryable),
        Answer::Success(partial) => panic!("not a refusal: {partial:?}"),
    }
}

fn signals() -> Vec<AdmissionSignal> {
    vec![
        AdmissionSignal::QueueSaturated {
            queue: "ingestion".to_owned(),
            ceiling_bytes: 1_000,
            attempted_bytes: 64,
        },
        AdmissionSignal::PayloadOverCap {
            bytes: 11,
            ceiling_bytes: 10,
        },
        AdmissionSignal::MalformedRequest {
            detail: "bad tag".to_owned(),
        },
        AdmissionSignal::ExportOverCap {
            rejection: BudgetRejection {
                observed: 5,
                message: "too many records".to_owned(),
            },
        },
        AdmissionSignal::Draining,
    ]
}

#[test]
fn the_summary_names_sixty_four_positions_and_counts_the_rest() {
    let refused = |count: usize| ExportOutcome {
        records: (0..count)
            .map(|_| RecordOutcome::Rejected {
                reason: "trace_id carried 3 bytes where the model carries 16".to_owned(),
            })
            .collect(),
    };

    let (rejected, message) = rejected_summary(&refused(2));
    assert_eq!(rejected, 2);
    assert_eq!(
        message,
        "position 0: trace_id carried 3 bytes where the model carries \
         16; position 1: trace_id carried 3 bytes where the model \
         carries 16"
    );

    let (rejected, message) = rejected_summary(&refused(70));
    assert_eq!(rejected, 70, "the count is complete");
    assert!(
        message.contains("position 0") && message.contains("position 63"),
        "the first and 64th positions are named: {message:?}"
    );
    assert!(
        !message.contains("position 64"),
        "the 65th position is summarized, not named: {message:?}"
    );
    assert!(
        message.contains("6 further rejected records not named"),
        "the truncation is stated: {message:?}"
    );
}

#[test]
fn exactly_sixty_four_rejections_are_all_named() {
    let outcome = ExportOutcome {
        records: (0..64)
            .map(|index| RecordOutcome::Rejected {
                reason: format!("r{index}"),
            })
            .collect(),
    };
    let (rejected, message) = rejected_summary(&outcome);
    assert_eq!(rejected, 64);
    assert!(message.ends_with("; position 63: r63"));
    assert_eq!(message.matches("position").count(), 64);
}

#[test]
fn the_answer_names_exactly_the_rejected_positions() {
    let outcome = ExportOutcome {
        records: vec![
            RecordOutcome::Admitted,
            RecordOutcome::Rejected {
                reason: "poison".to_owned(),
            },
            RecordOutcome::Collapsed,
        ],
    };
    let expected = PartialSuccess {
        rejected: 1,
        message: "position 1: poison".to_owned(),
    };
    assert_eq!(answer(Ok(outcome.clone())), Answer::Success(expected.clone()));
    assert_eq!(reply(Ok(outcome)), Ok(expected));
}

#[test]
fn a_fully_admitted_export_names_nothing() {
    let outcome = ExportOutcome {
        records: vec![RecordOutcome::Admitted, RecordOutcome::Collapsed],
    };
    let nothing = PartialSuccess {
        rejected: 0,
        message: String::new(),
    };
    assert_eq!(answer(Ok(outcome.clone())), Answer::Success(nothing.clone()));
    assert_eq!(reply(Ok(outcome)), Ok(nothing.clone()));
    assert_eq!(reply(Ok(ExportOutcome { records: Vec::new() })), Ok(nothing));
}

#[test]
fn a_count_saturates_where_the_wire_ends() {
    assert_eq!(rejected_count(0), 0);
    assert_eq!(rejected_count(17), 17);
    assert_eq!(rejected_count(usize::MAX), i64::MAX);
}

#[test]
fn each_signal_has_its_http_answer() {
    let answers: Vec<Answer> = signals().into_iter().map(|signal| answer(Err(signal))).collect();
    assert_eq!(
        refusal(answers[0].clone()),
        (
            429,
            "the ingestion ingestion queue is at its 1000-byte in-flight ceiling and a record \
             of 64 bytes did not fit; the only retryable admission signal — retry"
                .to_owned(),
            true
        )
    );
    assert_eq!(
        refusal(answers[1].clone()),
        (
            413,
            "the OTLP payload of 11 bytes exceeds the 10-byte ceiling; refused before parsing, \
             non-retryable"
                .to_owned(),
            false
        )
    );
    assert_eq!(
        refusal(answers[2].clone()),
        (
            400,
            "the payload did not parse as an OTLP export request and cannot be retried: bad tag"
                .to_owned(),
            false
        )
    );
    assert_eq!(
        answers[3],
        Answer::Success(PartialSuccess {
            rejected: 5,
            message: "too many records".to_owned()
        })
    );
    assert_eq!(
        refusal(answers[4].clone()),
        (
            503,
            "the runtime is draining and admits no new telemetry; re-delivery after restart \
             will be admitted fresh"
                .to_owned(),
            false
        )
    );
}

#[test]
fn each_signal_has_its_grpc_answer_in_the_same_words() {
    let codes = [
        Some(StatusCode::ResourceExhausted),
        Some(StatusCode::InvalidArgument),
        Some(StatusCode::InvalidArgument),
        None,
        Some(StatusCode::Unavailable),
    ];
    for (signal, code) in signals().into_iter().zip(codes) {
        match (reply(Err(signal.clone())), code) {
            (Ok(partial), None) => {
                assert_eq!(answer(Err(signal)), Answer::Success(partial));
            }
            (Err(status), Some(code)) => {
                assert_eq!(status.code, code);
                assert_eq!(refusal(answer(Err(signal))).1, status.message);
            }
            (reply, _) => panic!("{reply:?}"),
        }
    }
}

#[test]
fn a_budget_refusal_as_a_status_is_an_internal_error() {
    let status = signal_to_status(signals().remove(3));
    assert_eq!(status.code, StatusCode::Internal);
    assert_eq!(
        status.message,
        "an export-budget refusal must ride partial_success, never a status: too many records"
    );
}

#[test]
fn json_content_type_answers_415_naming_protobuf_only() {
    let answer = content_type_gate(Some("application/json")).expect("it is refused");
    let (status, message, retryable) = refusal(answer);
    assert_eq!(status, 415);
    assert!(!retryable);
    assert!(
        message.contains("application/x-protobuf") && message.contains("application/json"),
        "the supported and the declared encodings are both named: {message}"
    );
    assert_eq!(
        message,
        "this phase speaks OTLP/HTTP protobuf only (application/x-protobuf); the request \
         declared application/json, which is refused before reading"
    );
}

#[test]
fn protobuf_is_understood_however_it_is_spelled() {
    for spelling in [
        "application/x-protobuf",
        "Application/X-Protobuf",
        "  application/x-protobuf\t; charset=utf-8",
        "application/x-protobuf;",
    ] {
        assert_eq!(content_type_gate(Some(spelling)), None, "{spelling}");
    }
    assert_eq!(content_type_gate(None), None);
    for spelling in ["application/x-protobuf2", "", ";application/x-protobuf"] {
        assert!(content_type_gate(Some(spelling)).is_some(), "{spelling}");
    }
}

#[test]
fn declared_over_ceiling_length_refused_413_before_reading() {
    let answer = refused_unread(
        false,
        Some("application/x-protobuf"),
        Some("9999999999"),
        CEILING,
    )
    .expect("it is refused");
    let (status, message, _) = refusal(answer);
    assert_eq!(status, 413);
    assert!(
        message.contains("exceeds") && message.contains("4194304"),
        "the ceiling is named: {message}"
    );
    assert_eq!(
        message,
        "the OTLP payload exceeds the 4194304-byte ceiling; refused before parsing, non-retryable"
    );
}

#[test]
fn only_a_number_declares_a_length() {
    assert!(declared_over_ceiling(Some("11"), 10));
    assert!(declared_over_ceiling(Some("+11"), 10));
    assert!(declared_over_ceiling(Some("00011"), 10));
    assert!(declared_over_ceiling(Some("18446744073709551615"), 10));
    for not_over in [
        "10",
        "0",
        "",
        "+",
        "-11",
        "++11",
        "11 ",
        "1e9",
        "18446744073709551616",
        "99999999999999999999999999",
    ] {
        assert!(!declared_over_ceiling(Some(not_over), 10), "{not_over}");
    }
    assert!(!declared_over_ceiling(None, 10));
}

#[test]
fn the_gates_before_the_body_stand_in_order() {
    let closing = refused_unread(true, Some("text/html"), Some("99"), 10);
    assert_eq!(refusal(closing.expect("closing")).0, 503);
    let foreign = refused_unread(false, Some("text/html"), Some("99"), 10);
    assert_eq!(refusal(foreign.expect("foreign")).0, 415);
    let long = refused_unread(false, None, Some("99"), 10);
    assert_eq!(refusal(long.expect("long")).0, 413);
    assert_eq!(refused_unread(false, None, None, 10), None);
}

#[test]
fn a_failed_read_is_no_over_ceiling_payload() {
    let (status, message, _) = refusal(read_failure(ReadFailure::Incomplete, 10));
    assert_eq!(status, 400);
    assert!(message.contains("could not be read"));
    assert!(!message.contains("ceiling"));
    let (status, message, _) = refusal(read_failure(ReadFailure::OverCeiling, 10));
    assert_eq!(status, 413);
    assert!(message.contains("10-byte ceiling"));
    let (status, message, retryable) = refusal(read_failure(ReadFailure::Late, 10));
    assert_eq!(status, 408);
    assert_eq!(message, body_read_timeout_status().message);
    assert!(!retryable);
}

#[test]
fn a_body_that_may_not_be_buffered_now_may_be_sent_again() {
    let (status, message, retryable) = refusal(inflight_over_budget(1_024));
    assert_eq!(status, 429);
    assert!(retryable);
    assert_eq!(message, inflight_over_budget_status(1_024).message);
}

#[test]
fn foreign_grpc_dialects_answer_unsupported_media_type() {
    for dialect in [
        "application/grpc-web+proto",
        "application/grpc+json",
        "application/grpc+json ; charset=utf-8",
    ] {
        assert!(!is_grpc_content_type(Some(dialect)), "{dialect}");
        assert_eq!(
            route(Some(dialect), "/Export", false),
            Route::UnsupportedMediaType
        );
    }
    for foreign in ["application/json", "", "application/grp", "application/grpc x"] {
        assert!(!is_grpc_content_type(Some(foreign)), "{foreign}");
    }
    assert!(!is_grpc_content_type(None));
}

#[test]
fn legal_media_type_spellings_are_answered_as_grpc() {
    for spelling in [
        "application/grpc",
        "Application/Grpc",
        "application/grpc+PROTO",
        "application/grpc ; charset=utf-8",
        "application/grpc+proto ; charset=utf-8",
        "application/grpc\t ",
        "application/grpc;",
    ] {
        assert!(is_grpc_content_type(Some(spelling)), "{spelling}");
    }
}

#[test]
fn a_request_is_routed_by_type_then_method_then_drain() {
    let grpc = Some("application/grpc");
    assert_eq!(route(grpc, "/Export", false), Route::Export);
    assert_eq!(route(grpc, "/Export", true), Route::Draining);
    assert_eq!(route(grpc, "/Gather", true), Route::UnknownMethod);
    assert_eq!(route(None, "/Gather", true), Route::UnsupportedMediaType);
}

#[test]
fn the_transport_edge_names_its_reasons() {
    let status = inflight_over_budget_status(67_108_864);
    assert_eq!(status.code, StatusCode::ResourceExhausted);
    assert_eq!(
        status.message,
        "the transport edge's in-flight-body budget of 67108864 bytes is exhausted; buffering \
         another body now would breach the runtime's bounded-memory law. Retry when a buffered \
         body completes"
    );
    let status = body_read_timeout_status();
    assert_eq!(status.code, StatusCode::DeadlineExceeded);
    assert!(status.message.contains("within the read deadline"));
    let status = unimplemented_status("/Gather");
    assert_eq!(status.code, StatusCode::Unimplemented);
    assert_eq!(status.message, "unknown method /Gather");
}
