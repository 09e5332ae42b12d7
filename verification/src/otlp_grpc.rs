//! The export services over gRPC: which requests are answered as gRPC, and what
//! an export is answered.
//!
//! What is said of an export is the same as over HTTP; only the way it is said
//! differs. See [`crate::otlp_http`].

use crate::otlp_http;
use crate::otlp_http::{AdmissionSignal, ExportOutcome, PartialSuccess, PartialSuccessModel};
use crate::text;
use vstd::prelude::*;

verus! {

/// The trace service's path.
pub const TRACE_SERVICE_PREFIX: &'static str =
    "/opentelemetry.proto.collector.trace.v1.TraceService";

/// The metrics service's path.
pub const METRICS_SERVICE_PREFIX: &'static str =
    "/opentelemetry.proto.collector.metrics.v1.MetricsService";

/// The logs service's path.
pub const LOGS_SERVICE_PREFIX: &'static str =
    "/opentelemetry.proto.collector.logs.v1.LogsService";

/// The one method of each service.
pub const EXPORT_METHOD: &'static str = "/Export";

/// The media type of gRPC.
pub const GRPC_MEDIA_TYPE: &'static str = "application/grpc";

/// The suffix of the one message format that is understood.
pub const PROTO_SUFFIX: &'static str = "+proto";

/// A status code of gRPC.
#[derive(Clone, Copy, Debug, PartialEq, Eq, Structural)]
pub enum StatusCode {
    /// `INVALID_ARGUMENT`.
    InvalidArgument,
    /// `DEADLINE_EXCEEDED`.
    DeadlineExceeded,
    /// `RESOURCE_EXHAUSTED`.
    ResourceExhausted,
    /// `UNIMPLEMENTED`.
    Unimplemented,
    /// `INTERNAL`.
    Internal,
    /// `UNAVAILABLE`.
    Unavailable,
}

/// A status that refuses a request.
#[derive(Clone, Debug, PartialEq, Eq)]
pub struct GrpcStatus {
    /// The code.
    pub code: StatusCode,
    /// The reason.
    pub message: String,
}

/// A status: a code, and the reason.
pub ghost struct StatusModel {
    /// The code.
    pub code: StatusCode,
    /// The reason.
    pub message: Seq<char>,
}

impl View for GrpcStatus {
    type V = StatusModel;

    open spec fn view(&self) -> StatusModel {
        StatusModel { code: self.code, message: self.message@ }
    }
}

/// The status of a signal.
pub open spec fn signal_status(signal: AdmissionSignal) -> StatusModel {
    match signal {
        AdmissionSignal::QueueSaturated {
            queue,
            ceiling_bytes,
            attempted_bytes,
        } => StatusModel {
            code: StatusCode::ResourceExhausted,
            message: otlp_http::saturated_text(
                queue@,
                ceiling_bytes as nat,
                attempted_bytes as nat,
            ),
        },
        AdmissionSignal::PayloadOverCap { bytes, ceiling_bytes } => StatusModel {
            code: StatusCode::InvalidArgument,
            message: otlp_http::over_cap_text(Some(bytes), ceiling_bytes as nat),
        },
        AdmissionSignal::MalformedRequest { detail } => StatusModel {
            code: StatusCode::InvalidArgument,
            message: otlp_http::malformed_text(detail@),
        },
        AdmissionSignal::ExportOverCap { rejection } => StatusModel {
            code: StatusCode::Internal,
            message: "an export-budget refusal must ride partial_success, never a status: "@
                + rejection.message@,
        },
        AdmissionSignal::Draining => StatusModel {
            code: StatusCode::Unavailable,
            message: otlp_http::DRAINING_MESSAGE@,
        },
    }
}

/// The status of a signal. An export over an export budget is not answered with
/// it: see [`reply`].
pub fn signal_to_status(signal: AdmissionSignal) -> (status: GrpcStatus)
    ensures
        status@ == signal_status(signal),
{
    match signal {
        AdmissionSignal::QueueSaturated { queue, ceiling_bytes, attempted_bytes } => GrpcStatus {
            code: StatusCode::ResourceExhausted,
            message: otlp_http::saturated_message(queue.as_str(), ceiling_bytes, attempted_bytes),
        },
        AdmissionSignal::PayloadOverCap { bytes, ceiling_bytes } => GrpcStatus {
            code: StatusCode::InvalidArgument,
            message: otlp_http::over_cap_message(Some(bytes), ceiling_bytes),
        },
        AdmissionSignal::MalformedRequest { detail } => GrpcStatus {
            code: StatusCode::InvalidArgument,
            message: otlp_http::malformed_message(detail.as_str()),
        },
        AdmissionSignal::ExportOverCap { rejection } => {
            let mut message =
                "an export-budget refusal must ride partial_success, never a status: ".to_owned();
            message.append(rejection.message.as_str());
            GrpcStatus { code: StatusCode::Internal, message }
        },
        AdmissionSignal::Draining => GrpcStatus {
            code: StatusCode::Unavailable,
            message: otlp_http::DRAINING_MESSAGE.to_owned(),
        },
    }
}

/// What an export is answered: a partial success, or a status.
pub open spec fn export_reply(result: Result<ExportOutcome, AdmissionSignal>) -> Result<
    PartialSuccessModel,
    StatusModel,
> {
    match result {
        Ok(outcome) => Ok(otlp_http::admitted_model(outcome.records@)),
        Err(AdmissionSignal::ExportOverCap { rejection }) => Ok(
            otlp_http::over_budget_model(rejection),
        ),
        Err(signal) => Err(signal_status(signal)),
    }
}

/// What an export is answered, once admission has decided on it.
pub fn reply(result: Result<ExportOutcome, AdmissionSignal>) -> (reply: Result<
    PartialSuccess,
    GrpcStatus,
>)
    ensures
        match reply {
            Ok(partial) => export_reply(result) == Ok::<PartialSuccessModel, StatusModel>(partial@),
            Err(status) => export_reply(result) == Err::<PartialSuccessModel, StatusModel>(status@),
        },
{
    match result {
        Ok(outcome) => Ok(otlp_http::admitted(&outcome)),
        Err(AdmissionSignal::ExportOverCap { rejection }) => Ok(otlp_http::over_budget(rejection)),
        Err(signal) => Err(signal_to_status(signal)),
    }
}

/// The status of a request whose body may not be buffered now.
pub fn inflight_over_budget_status(budget_bytes: usize) -> (status: GrpcStatus)
    ensures
        status@ == (StatusModel {
            code: StatusCode::ResourceExhausted,
            message: otlp_http::over_budget_text(budget_bytes as nat),
        }),
{
    GrpcStatus {
        code: StatusCode::ResourceExhausted,
        message: otlp_http::over_budget_message(budget_bytes),
    }
}

/// The status of a request whose body did not arrive in time.
pub fn body_read_timeout_status() -> (status: GrpcStatus)
    ensures
        status@ == (StatusModel {
            code: StatusCode::DeadlineExceeded,
            message: otlp_http::LATE_MESSAGE@,
        }),
{
    GrpcStatus {
        code: StatusCode::DeadlineExceeded,
        message: otlp_http::LATE_MESSAGE.to_owned(),
    }
}

/// The status of a request for a method that a service does not have.
pub fn unimplemented_status(path: &str) -> (status: GrpcStatus)
    ensures
        status@ == (StatusModel {
            code: StatusCode::Unimplemented,
            message: "unknown method "@ + path@,
        }),
{
    let mut message = "unknown method ".to_owned();
    message.append(path);
    GrpcStatus { code: StatusCode::Unimplemented, message }
}

/// How a request to a service is handled.
#[derive(Clone, Copy, Debug, PartialEq, Eq, Structural)]
pub enum Route {
    /// It is not gRPC: a bare 415.
    UnsupportedMediaType,
    /// It asks for a method that the service does not have.
    UnknownMethod,
    /// The runtime is closing: it is refused before its body is read.
    Draining,
    /// It is an export.
    Export,
}

/// How a request to a service is handled: the content type decides first, then
/// the method, then whether the runtime is closing.
pub fn route(content_type: Option<&str>, path: &str, draining: bool) -> (route: Route)
    ensures
        route == if !(content_type matches Some(declared) && declares_grpc(declared@)) {
            Route::UnsupportedMediaType
        } else if path@ != EXPORT_METHOD@ {
            Route::UnknownMethod
        } else if draining {
            Route::Draining
        } else {
            Route::Export
        },
{
    if !is_grpc_content_type(content_type) {
        Route::UnsupportedMediaType
    } else if !text::same(path, EXPORT_METHOD) {
        Route::UnknownMethod
    } else if draining {
        Route::Draining
    } else {
        Route::Export
    }
}

/// A text in lower case.
pub open spec fn lower_text(bytes: Seq<u8>) -> Seq<u8> {
    Seq::new(bytes.len(), |i: int| text::lowered(bytes[i]))
}

/// What follows a prefix, or all where the text does not begin with it.
pub open spec fn after_prefix(bytes: Seq<u8>, prefix: Seq<u8>) -> Seq<u8> {
    if prefix.is_prefix_of(bytes) {
        bytes.skip(prefix.len() as int)
    } else {
        bytes
    }
}

/// Whether nothing follows but, after spaces and tabs, parameters.
pub open spec fn only_parameters(bytes: Seq<u8>) -> bool
    decreases bytes.len(),
{
    if bytes.len() == 0 {
        true
    } else if bytes[0] == 32 || bytes[0] == 9 {
        only_parameters(bytes.skip(1))
    } else {
        bytes[0] == 0x3b
    }
}

/// Whether a content type is gRPC's own, in the message format that is
/// understood: in any case, and with or without parameters.
pub open spec fn declares_grpc(content_type: Seq<char>) -> bool {
    let lower = lower_text(text::bytes_of_text(content_type));
    let grpc = text::bytes_of_text(GRPC_MEDIA_TYPE@);
    grpc.is_prefix_of(lower) && only_parameters(
        after_prefix(after_prefix(lower, grpc), text::bytes_of_text(PROTO_SUFFIX@)),
    )
}

/// Whether a text goes on with `prefix`, in any case, from `from` on.
fn goes_on(bytes: &[u8], from: usize, prefix: &[u8]) -> (goes_on: bool)
    requires
        from <= bytes@.len(),
    ensures
        goes_on == prefix@.is_prefix_of(lower_text(bytes@).skip(from as int)),
        goes_on ==> from + prefix@.len() <= bytes@.len(),
{
    let ghost rest = lower_text(bytes@).skip(from as int);
    let length: usize = bytes.len();
    if length - from < prefix.len() {
        return false;
    }
    let mut i: usize = 0;
    while i < prefix.len()
        invariant
            i <= prefix@.len(),
            from + prefix@.len() <= bytes@.len() == length,
            rest == lower_text(bytes@).skip(from as int),
            forall|j: int| 0 <= j < i ==> #[trigger] prefix@[j] == rest[j],
        decreases prefix@.len() - i,
    {
        if text::lower(bytes[from + i]) != prefix[i] {
            assert(prefix@[i as int] != rest[i as int]);
            assert(rest.subrange(0, prefix@.len() as int)[i as int] == rest[i as int]);
            return false;
        }
        i += 1;
    }
    assert(prefix@ =~= rest.subrange(0, prefix@.len() as int));
    true
}

/// Whether a request speaks gRPC, in the message format that is understood.
pub fn is_grpc_content_type(content_type: Option<&str>) -> (speaks: bool)
    ensures
        speaks == (content_type matches Some(declared) && declares_grpc(declared@)),
{
    let declared = match content_type {
        None => {
            return false;
        },
        Some(declared) => declared,
    };
    let bytes = declared.as_bytes();
    let length: usize = bytes.len();
    let ghost lower = lower_text(bytes@);
    let grpc = GRPC_MEDIA_TYPE.as_bytes();
    assert(lower.skip(0) =~= lower);
    if !goes_on(bytes, 0, grpc) {
        return false;
    }
    let mut at: usize = grpc.len();
    let proto = PROTO_SUFFIX.as_bytes();
    if goes_on(bytes, at, proto) {
        assert(lower.skip(at as int).skip(proto@.len() as int) =~= lower.skip(
            at + proto@.len(),
        ));
        at += proto.len();
    }
    while at < bytes.len() && (bytes[at] == 32 || bytes[at] == 9)
        invariant
            at <= bytes@.len(),
            lower == lower_text(bytes@),
            only_parameters(lower.skip(at as int)) == declares_grpc(declared@),
        decreases bytes@.len() - at,
    {
        assert(lower.skip(at as int).skip(1) =~= lower.skip(at + 1));
        at += 1;
    }
    at == bytes.len() || bytes[at] == 0x3b
}

/// HTTP and gRPC say the same of every export: the same partial success, or the
/// same reason for a refusal.
pub proof fn both_transports_say_the_same(result: Result<ExportOutcome, AdmissionSignal>)
    ensures
        match export_reply(result) {
            Ok(partial) => otlp_http::export_answer(result) == otlp_http::AnswerModel::Success(
                partial,
            ),
            Err(status) => otlp_http::export_answer(result) matches otlp_http::AnswerModel::Refusal {
                message,
                ..
            } && message == status.message,
        },
{
}

/// No admission signal ends in an internal error.
pub proof fn no_export_is_an_internal_error(result: Result<ExportOutcome, AdmissionSignal>)
    ensures
        export_reply(result) matches Err(status) ==> status.code != StatusCode::Internal,
{
}

/// Over gRPC too, the answer to an export that was admitted counts exactly the
/// records of it that were rejected, and the answer to one over its budget counts
/// every record of it.
pub proof fn a_reply_counts_the_rejected_records(
    result: Result<ExportOutcome, AdmissionSignal>,
    replied: Result<PartialSuccess, GrpcStatus>,
)
    requires
        call_ensures(reply, (result,), replied),
    ensures
        result matches Ok(outcome) ==> replied matches Ok(partial) && {
            let rejected = otlp_http::how_many_rejected(outcome.records@);
            &&& rejected <= i64::MAX ==> partial.rejected == rejected
            &&& rejected > i64::MAX ==> partial.rejected == i64::MAX
        },
        result matches Err(AdmissionSignal::ExportOverCap { rejection }) ==> replied matches Ok(
            partial,
        ) && {
            &&& rejection.observed <= i64::MAX ==> partial.rejected == rejection.observed
            &&& rejection.observed > i64::MAX ==> partial.rejected == i64::MAX
            &&& partial.message@ == rejection.message@
        },
        replied is Err <==> result is Err && !(result->Err_0 is ExportOverCap),
{
    if let Ok(outcome) = result {
        otlp_http::rejections_are_counted(outcome.records@);
    }
}

/// What an export that was not admitted is answered over gRPC: by which status,
/// and in what words. Only a full queue and a closing runtime are answered with a
/// status that invites to try again.
pub proof fn a_status_names_its_reason(signal: AdmissionSignal, status: GrpcStatus)
    requires
        call_ensures(signal_to_status, (signal,), status),
    ensures
        match signal {
            AdmissionSignal::QueueSaturated {
                queue,
                ceiling_bytes,
                attempted_bytes,
            } => status.code == StatusCode::ResourceExhausted && status.message@ == "the "@ + queue@
                + " ingestion queue is at its "@ + text::decimal(ceiling_bytes as nat)
                + "-byte in-flight ceiling and a record of "@ + text::decimal(
                attempted_bytes as nat,
            ) + " bytes did not fit; the only retryable admission signal — retry"@,
            AdmissionSignal::PayloadOverCap { bytes, ceiling_bytes } => status.code
                == StatusCode::InvalidArgument && status.message@ == "the OTLP payload of "@
                + text::decimal(bytes as nat) + " bytes"@ + " exceeds the "@ + text::decimal(
                ceiling_bytes as nat,
            ) + "-byte ceiling; refused before parsing, non-retryable"@,
            AdmissionSignal::MalformedRequest { detail } => status.code
                == StatusCode::InvalidArgument && status.message@
                == "the payload did not parse as an OTLP export request and cannot be retried: "@
                + detail@,
            AdmissionSignal::ExportOverCap { rejection } => status.code == StatusCode::Internal
                && status.message@
                == "an export-budget refusal must ride partial_success, never a status: "@
                + rejection.message@,
            AdmissionSignal::Draining => status.code == StatusCode::Unavailable && status.message@
                == "the runtime is draining and admits no new telemetry; re-delivery after restart will be admitted fresh"@,
        },
{
}

/// An export is answered over gRPC with the status of its refusal.
pub proof fn a_refused_export_is_answered_with_its_status(
    signal: AdmissionSignal,
    replied: Result<PartialSuccess, GrpcStatus>,
    status: GrpcStatus,
)
    requires
        !(signal is ExportOverCap),
        call_ensures(reply, (Err(signal),), replied),
        call_ensures(signal_to_status, (signal,), status),
    ensures
        replied matches Err(refused) && refused.code == status.code && refused.message@
            == status.message@,
{
}

/// The statuses of requests that no export comes of.
pub proof fn a_request_without_an_export_has_its_status(
    budget_bytes: usize,
    exhausted: GrpcStatus,
    late: GrpcStatus,
    path: &str,
    unknown: GrpcStatus,
)
    requires
        call_ensures(inflight_over_budget_status, (budget_bytes,), exhausted),
        call_ensures(body_read_timeout_status, (), late),
        call_ensures(unimplemented_status, (path,), unknown),
    ensures
        exhausted.code == StatusCode::ResourceExhausted,
        exhausted.message@ == "the transport edge's in-flight-body budget of "@ + text::decimal(
            budget_bytes as nat,
        )
            + " bytes is exhausted; buffering another body now would breach the runtime's bounded-memory law. Retry when a buffered body completes"@,
        late.code == StatusCode::DeadlineExceeded,
        late.message@
            == "the request body did not arrive in full within the read deadline; refused at the transport edge"@,
        unknown.code == StatusCode::Unimplemented,
        unknown.message@ == "unknown method "@ + path@,
{
}

/// Whether a header's text is the media type `name`, in whatever case: it begins
/// with it, and goes on with spaces and tabs only, up to its end or, from `stop`
/// on, to parameters.
pub open spec fn is_bare_media_type(header: Seq<u8>, name: Seq<u8>, stop: int) -> bool {
    &&& name.len() <= stop <= header.len()
    &&& forall|i: int| 0 <= i < name.len() ==> text::one_letter(#[trigger] header[i], name[i])
    &&& forall|i: int|
        name.len() <= i < stop ==> #[trigger] header[i] as char == ' ' || header[i] as char == '\t'
    &&& stop == header.len() || header[stop] as char == ';'
}

/// Whether a header's text is gRPC's media type, with or without the name of the
/// one message format.
pub open spec fn is_grpc_media_type(header: Seq<u8>, stop: int) -> bool {
    ||| is_bare_media_type(header, vstd::utf8::encode_utf8("application/grpc"@), stop)
    ||| is_bare_media_type(header, vstd::utf8::encode_utf8("application/grpc+proto"@), stop)
}

proof fn the_parameters_follow_blanks(bytes: Seq<u8>)
    ensures
        only_parameters(bytes) <==> exists|stop: int| #[trigger] parameters_from(bytes, stop),
    decreases bytes.len(),
{
    if bytes.len() == 0 {
        assert(parameters_from(bytes, 0));
    } else if bytes[0] == 32 || bytes[0] == 9 {
        let rest = bytes.skip(1);
        the_parameters_follow_blanks(rest);
        if only_parameters(rest) {
            let stop = choose|stop: int| #[trigger] parameters_from(rest, stop);
            assert forall|i: int| 0 <= i < stop + 1 implies #[trigger] bytes[i] == 32 || bytes[i]
                == 9 by {
                if i > 0 {
                    assert(rest[i - 1] == bytes[i]);
                }
            }
            assert(stop < rest.len() ==> rest[stop] == bytes[stop + 1]);
            assert(parameters_from(bytes, stop + 1));
        }
        if exists|stop: int| #[trigger] parameters_from(bytes, stop) {
            let stop = choose|stop: int| #[trigger] parameters_from(bytes, stop);
            assert(stop > 0);
            assert forall|i: int| 0 <= i < stop - 1 implies #[trigger] rest[i] == 32 || rest[i]
                == 9 by {
                assert(rest[i] == bytes[i + 1]);
            }
            assert(stop < bytes.len() ==> rest[stop - 1] == bytes[stop]);
            assert(parameters_from(rest, stop - 1));
        }
    } else {
        if bytes[0] == 0x3b {
            assert(parameters_from(bytes, 0));
        }
        if exists|stop: int| #[trigger] parameters_from(bytes, stop) {
            let stop = choose|stop: int| #[trigger] parameters_from(bytes, stop);
            if stop > 0 {
                assert(bytes[0] == 32 || bytes[0] == 9);
            }
        }
    }
}

/// Whether spaces and tabs lead to the end or to a semicolon.
spec fn parameters_from(bytes: Seq<u8>, stop: int) -> bool {
    &&& 0 <= stop <= bytes.len()
    &&& forall|i: int| 0 <= i < stop ==> #[trigger] bytes[i] == 32 || bytes[i] == 9
    &&& stop == bytes.len() || bytes[stop] == 0x3b
}

proof fn lower_case_keeps_the_rest(bytes: Seq<u8>, from: int, stop: int)
    requires
        0 <= from <= bytes.len(),
    ensures
        parameters_from(lower_text(bytes).skip(from), stop) <==> {
            &&& 0 <= stop <= bytes.len() - from
            &&& forall|i: int|
                from <= i < from + stop ==> #[trigger] bytes[i] == 32 || bytes[i] == 9
            &&& from + stop == bytes.len() || bytes[from + stop] == 0x3b
        },
{
    let rest = lower_text(bytes).skip(from);
    assert forall|i: int| from <= i < bytes.len() implies rest[i - from] == text::lowered(
        #[trigger] bytes[i],
    ) by {}
    if parameters_from(rest, stop) {
        assert forall|i: int| from <= i < from + stop implies #[trigger] bytes[i] == 32 || bytes[i]
            == 9 by {
            assert(rest[i - from] == 32 || rest[i - from] == 9);
        }
        assert(from + stop < bytes.len() ==> rest[stop] == text::lowered(bytes[from + stop]));
    }
    if 0 <= stop <= bytes.len() - from && (forall|i: int|
        from <= i < from + stop ==> #[trigger] bytes[i] == 32 || bytes[i] == 9) && (from + stop
        == bytes.len() || bytes[from + stop] == 0x3b) {
        assert forall|i: int| 0 <= i < stop implies #[trigger] rest[i] == 32 || rest[i] == 9 by {
            assert(bytes[from + i] == 32 || bytes[from + i] == 9);
        }
        assert(from + stop < bytes.len() ==> rest[stop] == text::lowered(bytes[from + stop]));
    }
}

/// Whether a media type is written in small letters and signs.
spec fn is_small(name: Seq<u8>) -> bool {
    forall|i: int| 0 <= i < name.len() ==> !(65 <= #[trigger] name[i] <= 90)
}

proof fn a_small_prefix_is_found(bytes: Seq<u8>, name: Seq<u8>)
    requires
        is_small(name),
    ensures
        name.is_prefix_of(lower_text(bytes)) <==> name.len() <= bytes.len() && forall|i: int|
            0 <= i < name.len() ==> text::one_letter(#[trigger] bytes[i], name[i]),
{
    let lower = lower_text(bytes);
    if name.is_prefix_of(lower) {
        assert forall|i: int| 0 <= i < name.len() implies text::one_letter(
            #[trigger] bytes[i],
            name[i],
        ) by {
            assert(lower.subrange(0, name.len() as int)[i] == lower[i]);
            assert(name[i] == lower[i]);
        }
    }
    if name.len() <= bytes.len() && forall|i: int|
        0 <= i < name.len() ==> text::one_letter(#[trigger] bytes[i], name[i]) {
        assert forall|i: int| 0 <= i < name.len() implies #[trigger] name[i] == lower[i] by {
            assert(text::one_letter(bytes[i], name[i]));
        }
        assert(name =~= lower.subrange(0, name.len() as int));
    }
}

proof fn the_media_types()
    ensures
        ({
            let grpc = vstd::utf8::encode_utf8("application/grpc"@);
            let suffix = vstd::utf8::encode_utf8("+proto"@);
            let proto = vstd::utf8::encode_utf8("application/grpc+proto"@);
            &&& is_small(grpc) && is_small(suffix) && is_small(proto)
            &&& proto == grpc + suffix
            &&& suffix.len() == 6
            &&& suffix[0] == 43
        }),
{
    reveal_strlit("application/grpc");
    reveal_strlit("+proto");
    reveal_strlit("application/grpc+proto");
    let grpc = "application/grpc"@;
    let suffix = "+proto"@;
    let proto = "application/grpc+proto"@;
    assert(vstd::utf8::is_ascii_chars(grpc));
    assert(vstd::utf8::is_ascii_chars(suffix));
    assert(vstd::utf8::is_ascii_chars(proto));
    vstd::utf8::is_ascii_chars_encode_utf8(grpc);
    vstd::utf8::is_ascii_chars_encode_utf8(suffix);
    vstd::utf8::is_ascii_chars_encode_utf8(proto);
    let (a, b, c) = (
        vstd::utf8::encode_utf8(grpc),
        vstd::utf8::encode_utf8(suffix),
        vstd::utf8::encode_utf8(proto),
    );
    assert forall|i: int| 0 <= i < a.len() implies !(65 <= #[trigger] a[i] <= 90) by {
        assert(a[i] as char == grpc[i]);
    }
    assert forall|i: int| 0 <= i < b.len() implies !(65 <= #[trigger] b[i] <= 90) by {
        assert(b[i] as char == suffix[i]);
    }
    assert forall|i: int| 0 <= i < c.len() implies !(65 <= #[trigger] c[i] <= 90) by {
        assert(c[i] as char == proto[i]);
    }
    assert(b[0] as char == suffix[0]);
    assert forall|i: int| 0 <= i < c.len() implies c[i] == (a + b)[i] by {
        assert(c[i] as char == proto[i]);
        if i < a.len() {
            assert(a[i] as char == grpc[i]);
        } else {
            assert(b[i - a.len()] as char == suffix[i - a.len()]);
        }
    }
    assert(c =~= a + b);
}

/// A request speaks gRPC exactly where it declares `application/grpc` or
/// `application/grpc+proto`, in whatever case, with or without parameters.
#[verifier::rlimit(60)]
pub proof fn only_grpc_in_protobuf_is_understood(content_type: Option<&str>, speaks: bool)
    requires
        call_ensures(is_grpc_content_type, (content_type,), speaks),
    ensures
        content_type is None ==> !speaks,
        content_type matches Some(declared) ==> {
            let header = vstd::utf8::encode_utf8(declared@);
            speaks <==> exists|stop: int| #[trigger] is_grpc_media_type(header, stop)
        },
{
    if let Some(declared) = content_type {
        let header = vstd::utf8::encode_utf8(declared@);
        let lower = lower_text(header);
        let grpc = vstd::utf8::encode_utf8("application/grpc"@);
        let suffix = vstd::utf8::encode_utf8("+proto"@);
        let proto = vstd::utf8::encode_utf8("application/grpc+proto"@);
        the_media_types();
        a_small_prefix_is_found(header, grpc);
        a_small_prefix_is_found(header, proto);
        let behind = lower.skip(grpc.len() as int);
        let length = grpc.len() as int;
        let longer = proto.len() as int;
        if grpc.is_prefix_of(lower) {
            assert(lower =~= grpc + behind);
            if suffix.is_prefix_of(behind) {
                assert(behind =~= suffix + lower.skip(longer));
                assert(proto =~= lower.subrange(0, longer));
                assert(behind.skip(suffix.len() as int) =~= lower.skip(longer));
                the_parameters_follow_blanks(lower.skip(longer));
                if speaks {
                    let stop = choose|stop: int| #[trigger]
                        parameters_from(lower.skip(longer), stop);
                    lower_case_keeps_the_rest(header, longer, stop);
                    assert(is_grpc_media_type(header, longer + stop));
                }
            } else {
                the_parameters_follow_blanks(behind);
                if speaks {
                    let stop = choose|stop: int| #[trigger] parameters_from(behind, stop);
                    lower_case_keeps_the_rest(header, length, stop);
                    assert(is_grpc_media_type(header, length + stop));
                }
            }
        }
        if exists|stop: int| #[trigger] is_grpc_media_type(header, stop) {
            let stop = choose|stop: int| #[trigger] is_grpc_media_type(header, stop);
            if is_bare_media_type(header, grpc, stop) {
                lower_case_keeps_the_rest(header, length, stop - length);
                if suffix.is_prefix_of(behind) {
                    assert(behind.subrange(0, 6)[0] == 43);
                    assert(behind[0] == text::lowered(header[length]));
                    if length < stop {
                        assert(header[length] as char == ' ' || header[length] as char == '\t');
                    }
                    assert(false);
                }
                assert(parameters_from(behind, stop - length));
            } else {
                lower_case_keeps_the_rest(header, longer, stop - longer);
                assert(proto.is_prefix_of(lower));
                assert(lower.subrange(0, longer) =~= proto);
                assert(lower.subrange(0, length) =~= grpc) by {
                    assert forall|i: int| 0 <= i < length implies lower[i] == grpc[i] by {
                        assert(lower.subrange(0, longer)[i] == proto[i]);
                    }
                }
                assert(behind.subrange(0, 6) =~= suffix) by {
                    assert forall|i: int| 0 <= i < 6 implies behind[i] == suffix[i] by {
                        assert(lower.subrange(0, longer)[length + i] == proto[length + i]);
                    }
                }
                assert(behind.skip(6) =~= lower.skip(longer));
                assert(parameters_from(lower.skip(longer), stop - longer));
                the_parameters_follow_blanks(lower.skip(longer));
            }
        }
    }
}

/// How a request to a service is handled: one that does not speak gRPC is turned
/// away first, then one for a method other than `/Export`, then every one while
/// the runtime is closing; what is left is an export.
pub proof fn a_request_is_routed_in_order(
    content_type: Option<&str>,
    speaks: bool,
    path: &str,
    draining: bool,
    routed: Route,
)
    requires
        call_ensures(is_grpc_content_type, (content_type,), speaks),
        call_ensures(route, (content_type, path, draining), routed),
    ensures
        routed == Route::UnsupportedMediaType <==> !speaks,
        routed == Route::UnknownMethod <==> speaks && path@ != "/Export"@,
        routed == Route::Draining <==> speaks && path@ == "/Export"@ && draining,
        routed == Route::Export <==> speaks && path@ == "/Export"@ && !draining,
{
}

/// The services stand under their paths.
pub proof fn the_services_stand_under_their_paths()
    ensures
        TRACE_SERVICE_PREFIX@ == "/opentelemetry.proto.collector.trace.v1.TraceService"@,
        METRICS_SERVICE_PREFIX@ == "/opentelemetry.proto.collector.metrics.v1.MetricsService"@,
        LOGS_SERVICE_PREFIX@ == "/opentelemetry.proto.collector.logs.v1.LogsService"@,
        EXPORT_METHOD@ == "/Export"@,
{
}

}
