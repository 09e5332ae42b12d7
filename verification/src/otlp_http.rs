//! The export endpoints over HTTP: what a request is refused for before its body
//! is read, and what an export is answered.
//!
//! An export that was admitted, in part or in whole, or that exceeds an export
//! budget, is answered with a partial success. Every other signal is a refusal:
//! a status and a plain text that names the reason.

use crate::text;
use vstd::prelude::*;

verus! {

/// The media type of the exports that are understood.
pub const PROTOBUF_MEDIA_TYPE: &'static str = "application/x-protobuf";

/// The media type of a refusal's text.
pub const TEXT_MEDIA_TYPE: &'static str = "text/plain; charset=utf-8";

/// After how many seconds an export may be sent again.
pub const RETRY_AFTER_SECS: &'static str = "1";

/// How many rejected records a message names.
pub const MAX_NAMED_POSITIONS: usize = 64;

/// Which of the export endpoints a request arrived on.
#[derive(Clone, Copy, Debug, PartialEq, Eq, Structural)]
pub enum Signal {
    /// Spans.
    Traces,
    /// Metric points.
    Metrics,
    /// Log records.
    Logs,
}

/// Why a whole export was refused.
#[derive(Clone, Debug, PartialEq, Eq)]
pub enum AdmissionSignal {
    /// The hand-off queue is full.
    QueueSaturated {
        /// The queue's name.
        queue: String,
        /// The queue's ceiling.
        ceiling_bytes: usize,
        /// The size of the record that did not fit.
        attempted_bytes: usize,
    },
    /// The payload is larger than a payload may be.
    PayloadOverCap {
        /// The payload's size.
        bytes: usize,
        /// The ceiling.
        ceiling_bytes: usize,
    },
    /// The payload is no export request.
    MalformedRequest {
        /// What is wrong with it.
        detail: String,
    },
    /// The export exceeds an export budget.
    ExportOverCap {
        /// Which one.
        rejection: BudgetRejection,
    },
    /// The runtime is closing.
    Draining,
}

/// An export budget that an export exceeds.
#[derive(Clone, Debug, PartialEq, Eq)]
pub struct BudgetRejection {
    /// How many records the export carries.
    pub observed: usize,
    /// The budget and the excess, in words.
    pub message: String,
}

/// What became of one record of an export.
#[derive(Clone, Debug, PartialEq, Eq)]
pub enum RecordOutcome {
    /// It was admitted.
    Admitted,
    /// It repeats a record that was admitted before.
    Collapsed,
    /// It was rejected.
    Rejected {
        /// Why, in words.
        reason: String,
    },
}

/// What became of the records of an export, in the order they stood in it.
#[derive(Clone, Debug, PartialEq, Eq)]
pub struct ExportOutcome {
    /// One outcome for each record.
    pub records: Vec<RecordOutcome>,
}

/// What is answered to a request that was understood.
#[derive(Clone, Debug, PartialEq, Eq)]
pub struct PartialSuccess {
    /// How many records were rejected.
    pub rejected: i64,
    /// Which, and why.
    pub message: String,
}

/// What is answered to an export.
#[derive(Clone, Debug, PartialEq, Eq)]
pub enum Answer {
    /// 200, with a partial success.
    Success(PartialSuccess),
    /// A refusal.
    Refusal {
        /// The status.
        status: u16,
        /// The reason.
        message: String,
        /// Whether the export may be sent again, after
        /// [`RETRY_AFTER_SECS`] seconds.
        retryable: bool,
    },
}

/// A partial success: how many records were rejected, and what is said of them.
pub ghost struct PartialSuccessModel {
    /// How many records were rejected.
    pub rejected: int,
    /// Which, and why.
    pub message: Seq<char>,
}

/// An answer: a partial success, or a refusal.
pub ghost enum AnswerModel {
    /// A partial success.
    Success(PartialSuccessModel),
    /// A refusal.
    Refusal {
        /// The status.
        status: int,
        /// The reason.
        message: Seq<char>,
        /// Whether the export may be sent again.
        retryable: bool,
    },
}

impl View for PartialSuccess {
    type V = PartialSuccessModel;

    open spec fn view(&self) -> PartialSuccessModel {
        PartialSuccessModel { rejected: self.rejected as int, message: self.message@ }
    }
}

impl View for Answer {
    type V = AnswerModel;

    open spec fn view(&self) -> AnswerModel {
        match *self {
            Answer::Success(partial) => AnswerModel::Success(partial@),
            Answer::Refusal { status, message, retryable } => AnswerModel::Refusal {
                status: status as int,
                message: message@,
                retryable,
            },
        }
    }
}

/// A rejected record: its position in the export, and why.
pub type Rejection = (nat, Seq<char>);

/// The rejected records of an export, in order.
pub open spec fn rejections(records: Seq<RecordOutcome>) -> Seq<Rejection>
    decreases records.len(),
{
    if records.len() == 0 {
        Seq::empty()
    } else {
        match records.last() {
            RecordOutcome::Rejected { reason } => rejections(records.drop_last()).push(
                ((records.len() - 1) as nat, reason@),
            ),
            _ => rejections(records.drop_last()),
        }
    }
}

/// What is said of one rejected record.
pub open spec fn rejection_text(rejection: Rejection) -> Seq<char> {
    "position "@ + text::decimal(rejection.0) + ": "@ + rejection.1
}

/// What is said of rejected records: each in turn, parted by semicolons.
pub open spec fn rejections_text(rejections: Seq<Rejection>) -> Seq<char>
    decreases rejections.len(),
{
    if rejections.len() == 0 {
        Seq::empty()
    } else if rejections.len() == 1 {
        rejection_text(rejections[0])
    } else {
        rejections_text(rejections.drop_last()) + "; "@ + rejection_text(rejections.last())
    }
}

/// What is said of an export's rejected records: the first are named, the rest
/// are counted.
pub open spec fn summary_text(rejections: Seq<Rejection>) -> Seq<char> {
    if rejections.len() <= MAX_NAMED_POSITIONS {
        rejections_text(rejections)
    } else {
        rejections_text(rejections.take(MAX_NAMED_POSITIONS as int)) + "; "@ + text::decimal(
            (rejections.len() - MAX_NAMED_POSITIONS) as nat,
        ) + " further rejected records not named"@
    }
}

/// Counts an export's rejected records, and names them.
pub fn rejected_summary(outcome: &ExportOutcome) -> (summary: (usize, String))
    ensures
        summary.0 == rejections(outcome.records@).len(),
        summary.1@ == summary_text(rejections(outcome.records@)),
{
    let mut rejected: usize = 0;
    let mut message = String::new();
    let mut i: usize = 0;
    while i < outcome.records.len()
        invariant
            i <= outcome.records@.len(),
            rejected <= i,
            rejected == rejections(outcome.records@.take(i as int)).len(),
            message@ == rejections_text(named(rejections(outcome.records@.take(i as int)))),
        decreases outcome.records@.len() - i,
    {
        let ghost before = rejections(outcome.records@.take(i as int));
        let ghost after = rejections(outcome.records@.take(i + 1));
        assert(outcome.records@.take(i + 1).drop_last() =~= outcome.records@.take(i as int));
        match &outcome.records[i] {
            RecordOutcome::Rejected { reason } => {
                assert(after == before.push((i as nat, reason@)));
                rejected += 1;
                if rejected <= MAX_NAMED_POSITIONS {
                    let ghost text_before = message@;
                    if rejected > 1 {
                        message.append("; ");
                    }
                    message.append("position ");
                    text::push_decimal(&mut message, i as u64);
                    message.append(": ");
                    message.append(reason.as_str());
                    assert(named(after).drop_last() =~= named(before));
                    assert(named(after).last() == (i as nat, reason@));
                    if rejected > 1 {
                        assert(message@ =~= text_before + "; "@ + rejection_text(
                            (i as nat, reason@),
                        ));
                    } else {
                        assert(text_before =~= Seq::<char>::empty());
                        assert(message@ =~= rejection_text((i as nat, reason@)));
                    }
                } else {
                    assert(named(after) =~= named(before));
                }
            },
            _ => {},
        }
        i += 1;
    }
    assert(outcome.records@.take(i as int) =~= outcome.records@);
    if rejected > MAX_NAMED_POSITIONS {
        message.append("; ");
        text::push_decimal(&mut message, (rejected - MAX_NAMED_POSITIONS) as u64);
        message.append(" further rejected records not named");
    }
    (rejected, message)
}

/// The rejected records that are named.
spec fn named(rejections: Seq<Rejection>) -> Seq<Rejection> {
    if rejections.len() <= MAX_NAMED_POSITIONS {
        rejections
    } else {
        rejections.take(MAX_NAMED_POSITIONS as int)
    }
}

/// A count of rejected records, as an answer carries it.
pub open spec fn wire_count(rejected: nat) -> int {
    if rejected <= i64::MAX {
        rejected as int
    } else {
        i64::MAX as int
    }
}

/// A count of rejected records, as an answer carries it: no more than fits.
pub fn rejected_count(rejected: usize) -> (count: i64)
    ensures
        count == wire_count(rejected as nat),
{
    if rejected as u64 <= i64::MAX as u64 {
        rejected as i64
    } else {
        i64::MAX
    }
}

/// What is answered of an export's records.
pub open spec fn admitted_model(records: Seq<RecordOutcome>) -> PartialSuccessModel {
    PartialSuccessModel {
        rejected: wire_count(rejections(records).len()),
        message: summary_text(rejections(records)),
    }
}

/// What is answered of an export's records.
pub fn admitted(outcome: &ExportOutcome) -> (partial: PartialSuccess)
    ensures
        partial@ == admitted_model(outcome.records@),
{
    let (rejected, message) = rejected_summary(outcome);
    PartialSuccess { rejected: rejected_count(rejected), message }
}

/// What is answered of an export that exceeds an export budget: every record is
/// rejected.
pub open spec fn over_budget_model(rejection: BudgetRejection) -> PartialSuccessModel {
    PartialSuccessModel {
        rejected: wire_count(rejection.observed as nat),
        message: rejection.message@,
    }
}

/// What is answered of an export that exceeds an export budget.
pub fn over_budget(rejection: BudgetRejection) -> (partial: PartialSuccess)
    ensures
        partial@ == over_budget_model(rejection),
{
    PartialSuccess { rejected: rejected_count(rejection.observed), message: rejection.message }
}

/// What is said when the queue is full.
pub open spec fn saturated_text(queue: Seq<char>, ceiling: nat, attempted: nat) -> Seq<char> {
    "the "@ + queue + " ingestion queue is at its "@ + text::decimal(ceiling)
        + "-byte in-flight ceiling and a record of "@ + text::decimal(attempted)
        + " bytes did not fit; the only retryable admission signal — retry"@
}

/// What is said when the queue is full.
pub fn saturated_message(queue: &str, ceiling_bytes: usize, attempted_bytes: usize) -> (message:
    String)
    ensures
        message@ == saturated_text(queue@, ceiling_bytes as nat, attempted_bytes as nat),
{
    let mut message = "the ".to_owned();
    message.append(queue);
    message.append(" ingestion queue is at its ");
    text::push_decimal(&mut message, ceiling_bytes as u64);
    message.append("-byte in-flight ceiling and a record of ");
    text::push_decimal(&mut message, attempted_bytes as u64);
    message.append(" bytes did not fit; the only retryable admission signal — retry");
    message
}

/// What is said of a payload over the ceiling: its size is named where it is
/// known.
pub open spec fn over_cap_text(bytes: Option<usize>, ceiling: nat) -> Seq<char> {
    (match bytes {
        Some(bytes) => "the OTLP payload of "@ + text::decimal(bytes as nat) + " bytes"@,
        None => "the OTLP payload"@,
    }) + " exceeds the "@ + text::decimal(ceiling)
        + "-byte ceiling; refused before parsing, non-retryable"@
}

/// What is said of a payload over the ceiling.
pub fn over_cap_message(bytes: Option<usize>, ceiling_bytes: usize) -> (message: String)
    ensures
        message@ == over_cap_text(bytes, ceiling_bytes as nat),
{
    let mut message = match bytes {
        Some(bytes) => {
            let mut message = "the OTLP payload of ".to_owned();
            text::push_decimal(&mut message, bytes as u64);
            message.append(" bytes");
            message
        },
        None => "the OTLP payload".to_owned(),
    };
    message.append(" exceeds the ");
    text::push_decimal(&mut message, ceiling_bytes as u64);
    message.append("-byte ceiling; refused before parsing, non-retryable");
    message
}

/// What is said of a payload that is no export request.
pub open spec fn malformed_text(detail: Seq<char>) -> Seq<char> {
    "the payload did not parse as an OTLP export request and cannot be retried: "@ + detail
}

/// What is said of a payload that is no export request.
pub fn malformed_message(detail: &str) -> (message: String)
    ensures
        message@ == malformed_text(detail@),
{
    let mut message =
        "the payload did not parse as an OTLP export request and cannot be retried: ".to_owned();
    message.append(detail);
    message
}

/// What is said when the runtime is closing.
pub const DRAINING_MESSAGE: &'static str =
    "the runtime is draining and admits no new telemetry; re-delivery after restart will be admitted fresh";

/// What is said of a body that did not arrive in full.
pub const UNREAD_MESSAGE: &'static str =
    "the request body could not be read in full; the payload never arrived complete, so nothing was parsed or admitted";

/// What is said of a body that did not arrive in time.
pub const LATE_MESSAGE: &'static str =
    "the request body did not arrive in full within the read deadline; refused at the transport edge";

/// What is said when no further body may be buffered.
pub open spec fn over_budget_text(budget: nat) -> Seq<char> {
    "the transport edge's in-flight-body budget of "@ + text::decimal(budget)
        + " bytes is exhausted; buffering another body now would breach the runtime's bounded-memory law. Retry when a buffered body completes"@
}

/// What is said when no further body may be buffered.
pub fn over_budget_message(budget_bytes: usize) -> (message: String)
    ensures
        message@ == over_budget_text(budget_bytes as nat),
{
    let mut message = "the transport edge's in-flight-body budget of ".to_owned();
    text::push_decimal(&mut message, budget_bytes as u64);
    message.append(
        " bytes is exhausted; buffering another body now would breach the runtime's bounded-memory law. Retry when a buffered body completes",
    );
    message
}

/// A refusal that is final.
pub open spec fn refused(status: int, message: Seq<char>) -> AnswerModel {
    AnswerModel::Refusal { status, message, retryable: false }
}

/// What a signal is answered.
pub open spec fn signal_answer(signal: AdmissionSignal) -> AnswerModel {
    match signal {
        AdmissionSignal::QueueSaturated {
            queue,
            ceiling_bytes,
            attempted_bytes,
        } => AnswerModel::Refusal {
            status: 429,
            message: saturated_text(queue@, ceiling_bytes as nat, attempted_bytes as nat),
            retryable: true,
        },
        AdmissionSignal::PayloadOverCap { bytes, ceiling_bytes } => refused(
            413,
            over_cap_text(Some(bytes), ceiling_bytes as nat),
        ),
        AdmissionSignal::MalformedRequest { detail } => refused(400, malformed_text(detail@)),
        AdmissionSignal::ExportOverCap { rejection } => AnswerModel::Success(
            over_budget_model(rejection),
        ),
        AdmissionSignal::Draining => refused(503, DRAINING_MESSAGE@),
    }
}

/// What an export is answered.
pub open spec fn export_answer(result: Result<ExportOutcome, AdmissionSignal>) -> AnswerModel {
    match result {
        Ok(outcome) => AnswerModel::Success(admitted_model(outcome.records@)),
        Err(signal) => signal_answer(signal),
    }
}

fn refuse(status: u16, message: String) -> (answer: Answer)
    ensures
        answer@ == refused(status as int, message@),
{
    Answer::Refusal { status, message, retryable: false }
}

/// What an export is answered, once admission has decided on it.
pub fn answer(result: Result<ExportOutcome, AdmissionSignal>) -> (answer: Answer)
    ensures
        answer@ == export_answer(result),
{
    match result {
        Ok(outcome) => Answer::Success(admitted(&outcome)),
        Err(AdmissionSignal::QueueSaturated { queue, ceiling_bytes, attempted_bytes }) => {
            Answer::Refusal {
                status: 429,
                message: saturated_message(queue.as_str(), ceiling_bytes, attempted_bytes),
                retryable: true,
            }
        },
        Err(AdmissionSignal::PayloadOverCap { bytes, ceiling_bytes }) => refuse(
            413,
            over_cap_message(Some(bytes), ceiling_bytes),
        ),
        Err(AdmissionSignal::MalformedRequest { detail }) => refuse(
            400,
            malformed_message(detail.as_str()),
        ),
        Err(AdmissionSignal::ExportOverCap { rejection }) => Answer::Success(
            over_budget(rejection),
        ),
        Err(AdmissionSignal::Draining) => refuse(503, DRAINING_MESSAGE.to_owned()),
    }
}

/// Why a request's body could not be read.
#[derive(Clone, Copy, Debug, PartialEq, Eq, Structural)]
pub enum ReadFailure {
    /// It grew past the ceiling.
    OverCeiling,
    /// It did not arrive in time.
    Late,
    /// It never arrived in full.
    Incomplete,
}

/// What a request is answered whose body could not be read.
pub fn read_failure(failure: ReadFailure, ceiling_bytes: usize) -> (answer: Answer)
    ensures
        answer@ == match failure {
            ReadFailure::OverCeiling => refused(413, over_cap_text(None, ceiling_bytes as nat)),
            ReadFailure::Late => refused(408, LATE_MESSAGE@),
            ReadFailure::Incomplete => refused(400, UNREAD_MESSAGE@),
        },
{
    match failure {
        ReadFailure::OverCeiling => refuse(413, over_cap_message(None, ceiling_bytes)),
        ReadFailure::Late => refuse(408, LATE_MESSAGE.to_owned()),
        ReadFailure::Incomplete => refuse(400, UNREAD_MESSAGE.to_owned()),
    }
}

/// What a request is answered whose body may not be buffered now: it may be sent
/// again.
pub fn inflight_over_budget(budget_bytes: usize) -> (answer: Answer)
    ensures
        answer@ == (AnswerModel::Refusal {
            status: 429,
            message: over_budget_text(budget_bytes as nat),
            retryable: true,
        }),
{
    Answer::Refusal { status: 429, message: over_budget_message(budget_bytes), retryable: true }
}

/// The media type that a content type declares: what stands before its
/// parameters.
pub open spec fn media_type(content_type: Seq<u8>) -> Seq<u8> {
    text::trimmed(text::before(content_type, 0x3b))
}

/// Whether a content type declares exports that are understood.
pub open spec fn declares_protobuf(content_type: Seq<char>) -> bool {
    text::same_ignoring_case(
        media_type(text::bytes_of_text(content_type)),
        text::bytes_of_text(PROTOBUF_MEDIA_TYPE@),
    )
}

/// What is said of a content type that is not understood.
pub open spec fn unsupported_text(content_type: Seq<char>) -> Seq<char> {
    "this phase speaks OTLP/HTTP protobuf only ("@ + PROTOBUF_MEDIA_TYPE@
        + "); the request declared "@ + content_type + ", which is refused before reading"@
}

/// What a request is refused for by its content type, where it declares one. A
/// header's text is ASCII: no other whitespace is looked for.
pub fn content_type_gate(content_type: Option<&str>) -> (refusal: Option<Answer>)
    ensures
        match content_type {
            None => refusal is None,
            Some(declared) => if declares_protobuf(declared@) {
                refusal is None
            } else {
                refusal matches Some(answer) && answer@ == refused(415, unsupported_text(declared@))
            },
        },
{
    let declared = match content_type {
        None => {
            return None;
        },
        Some(declared) => declared,
    };
    let bytes = declared.as_bytes();
    let parameters: usize = text::find(bytes, 0x3b);
    let (start, end) = text::trim(bytes, 0, parameters);
    assert(bytes@.subrange(0, parameters as int) =~= bytes@.take(parameters as int));
    if text::equal_ignoring_case(bytes, start, end, PROTOBUF_MEDIA_TYPE.as_bytes()) {
        return None;
    }
    let mut message = "this phase speaks OTLP/HTTP protobuf only (".to_owned();
    message.append(PROTOBUF_MEDIA_TYPE);
    message.append("); the request declared ");
    message.append(declared);
    message.append(", which is refused before reading");
    Some(refuse(415, message))
}

/// Whether a content length is a number over the ceiling.
pub open spec fn declares_over(content_length: Option<&str>, ceiling_bytes: nat) -> bool {
    content_length matches Some(declared) && text::unsigned_in(text::bytes_of_text(declared@))
        matches Some(length) && length > ceiling_bytes
}

/// Whether a request declares a content length over the ceiling.
pub fn declared_over_ceiling(content_length: Option<&str>, ceiling_bytes: usize) -> (over: bool)
    ensures
        over == declares_over(content_length, ceiling_bytes as nat),
{
    match content_length {
        None => false,
        Some(declared) => match text::parse_unsigned(declared.as_bytes()) {
            None => false,
            Some(length) => length > ceiling_bytes as u64,
        },
    }
}

/// What a request is refused for before its body is read, if for anything: the
/// runtime is closing, its content type is not understood, or it declares a body
/// over the ceiling, whichever comes first.
pub fn refused_unread(
    draining: bool,
    content_type: Option<&str>,
    content_length: Option<&str>,
    ceiling_bytes: usize,
) -> (refusal: Option<Answer>)
    ensures
        if draining {
            refusal matches Some(answer) && answer@ == refused(503, DRAINING_MESSAGE@)
        } else if content_type matches Some(declared) && !declares_protobuf(declared@) {
            refusal matches Some(answer) && answer@ == refused(
                415,
                unsupported_text(content_type->Some_0@),
            )
        } else if declares_over(content_length, ceiling_bytes as nat) {
            refusal matches Some(answer) && answer@ == refused(
                413,
                over_cap_text(None, ceiling_bytes as nat),
            )
        } else {
            refusal is None
        },
{
    if draining {
        return Some(refuse(503, DRAINING_MESSAGE.to_owned()));
    }
    match content_type_gate(content_type) {
        Some(refusal) => {
            return Some(refusal);
        },
        None => {},
    }
    if declared_over_ceiling(content_length, ceiling_bytes) {
        return Some(refuse(413, over_cap_message(None, ceiling_bytes)));
    }
    None
}

/// Only a full queue is answered with an invitation to send the export again.
pub proof fn only_saturation_is_retryable(result: Result<ExportOutcome, AdmissionSignal>)
    ensures
        (export_answer(result) matches AnswerModel::Refusal { retryable, .. } && retryable) <==> (
        result matches Err(signal) && signal is QueueSaturated),
{
}

/// The rejected records of an export are those it says were rejected, each with
/// its position and reason, in order.
pub proof fn rejections_are_exact(records: Seq<RecordOutcome>)
    ensures
        rejections(records).len() <= records.len(),
        forall|i: int|
            0 <= i < rejections(records).len() ==> {
                let (position, reason) = #[trigger] rejections(records)[i];
                &&& position < records.len()
                &&& records[position as int] matches RecordOutcome::Rejected { reason: why }
                &&& why@ == reason
            },
        forall|i: int, j: int|
            0 <= i < j < rejections(records).len() ==> (#[trigger] rejections(records)[i]).0 < (
            #[trigger] rejections(records)[j]).0,
        forall|k: int|
            0 <= k < records.len() && #[trigger] records[k] is Rejected ==> exists|i: int|
                0 <= i < rejections(records).len() && (#[trigger] rejections(records)[i]).0 == k,
    decreases records.len(),
{
    if records.len() > 0 {
        let shorter = records.drop_last();
        let before = rejections(shorter);
        rejections_are_exact(shorter);
        assert forall|i: int| 0 <= i < rejections(records).len() implies {
            let (position, reason) = #[trigger] rejections(records)[i];
            &&& position < records.len()
            &&& records[position as int] matches RecordOutcome::Rejected { reason: why }
            &&& why@ == reason
        } by {
            if i < before.len() {
                let _ = before[i];
                assert(shorter[before[i].0 as int] == records[before[i].0 as int]);
            }
        }
        assert forall|k: int|
            0 <= k < records.len() && #[trigger] records[k] is Rejected implies exists|i: int|
            0 <= i < rejections(records).len() && (#[trigger] rejections(records)[i]).0 == k by {
            if k < shorter.len() {
                assert(shorter[k] == records[k]);
                let i = choose|i: int| 0 <= i < before.len() && (#[trigger] before[i]).0 == k;
                assert(rejections(records)[i].0 == k);
            } else {
                assert(rejections(records)[before.len() as int].0 == k);
            }
        }
    }
}

/// An export none of whose records was rejected is answered with a partial
/// success that says nothing.
pub proof fn full_success_says_nothing(records: Seq<RecordOutcome>)
    requires
        forall|k: int| 0 <= k < records.len() ==> !(#[trigger] records[k] is Rejected),
    ensures
        admitted_model(records) == (PartialSuccessModel { rejected: 0, message: Seq::empty() }),
{
    rejections_are_exact(records);
    if rejections(records).len() > 0 {
        let _ = rejections(records)[0];
    }
}

/// How many of these records were rejected.
pub open spec fn how_many_rejected(records: Seq<RecordOutcome>) -> nat
    decreases records.len(),
{
    if records.len() == 0 {
        0
    } else {
        how_many_rejected(records.drop_last()) + if records.last() is Rejected {
            1nat
        } else {
            0
        }
    }
}

/// Rejections are as many as the rejected records.
pub proof fn rejections_are_counted(records: Seq<RecordOutcome>)
    ensures
        rejections(records).len() == how_many_rejected(records),
    decreases records.len(),
{
    if records.len() > 0 {
        rejections_are_counted(records.drop_last());
    }
}

/// A count of rejected records is carried as it is, and where it does not fit,
/// as the largest that does.
pub proof fn a_count_is_carried_as_it_is(rejected: usize, count: i64)
    requires
        call_ensures(rejected_count, (rejected,), count),
    ensures
        rejected <= i64::MAX ==> count == rejected,
        rejected > i64::MAX ==> count == i64::MAX,
{
}

/// The answer to an export that was admitted counts exactly the records of it
/// that were rejected.
pub proof fn an_answer_counts_the_rejected_records(outcome: ExportOutcome, reply: Answer)
    requires
        call_ensures(answer, (Ok(outcome),), reply),
    ensures
        reply matches Answer::Success(partial) && {
            &&& how_many_rejected(outcome.records@) <= i64::MAX ==> partial.rejected
                == how_many_rejected(outcome.records@)
            &&& how_many_rejected(outcome.records@) > i64::MAX ==> partial.rejected == i64::MAX
        },
{
    rejections_are_counted(outcome.records@);
}

/// The answer to an export over its budget counts every record of it, and says
/// what the budget's refusal says.
pub proof fn an_export_over_its_budget_is_rejected_whole(
    rejection: BudgetRejection,
    reply: Answer,
)
    requires
        call_ensures(answer, (Err(AdmissionSignal::ExportOverCap { rejection }),), reply),
    ensures
        reply matches Answer::Success(partial) && {
            &&& rejection.observed <= i64::MAX ==> partial.rejected == rejection.observed
            &&& rejection.observed > i64::MAX ==> partial.rejected == i64::MAX
            &&& partial.message@ == rejection.message@
        },
{
}

/// One record more, behind an export's records: if it was not rejected, nothing
/// more is said. If it was, it is named by its position and its reason, behind
/// those named before, as long as no more than 64 are named; from then on those
/// that are not named are counted.
pub proof fn each_rejected_record_is_named_or_counted(
    records: Seq<RecordOutcome>,
    more: RecordOutcome,
)
    ensures
        ({
            let before = admitted_model(records).message;
            let after = admitted_model(records.push(more)).message;
            let rejected = how_many_rejected(records);
            match more {
                RecordOutcome::Rejected { reason } => {
                    let name = "position "@ + text::decimal(records.len()) + ": "@ + reason@;
                    if rejected == 0 {
                        after == name
                    } else if rejected < 64 {
                        after == before + "; "@ + name
                    } else if rejected == 64 {
                        after == before + "; "@ + text::decimal(1)
                            + " further rejected records not named"@
                    } else {
                        exists|named: Seq<char>|
                            before == #[trigger] (named + "; "@) + text::decimal(
                                (rejected - 64) as nat,
                            ) + " further rejected records not named"@ && after == (named + "; "@)
                                + text::decimal((rejected - 63) as nat)
                                + " further rejected records not named"@
                    }
                },
                _ => after == before,
            }
        }),
{
    let longer = records.push(more);
    assert(longer.drop_last() =~= records);
    rejections_are_counted(records);
    let before = rejections(records);
    let after = rejections(longer);
    if let RecordOutcome::Rejected { reason } = more {
        let rejection = (records.len() as nat, reason@);
        assert(after == before.push(rejection));
        if before.len() == 0 {
            assert(after.len() == 1);
        } else if before.len() < 64 {
            assert(after.drop_last() =~= before);
        } else {
            assert(after.take(64) =~= before.take(64));
            assert(before.len() == 64 ==> before.take(64) =~= before);
            let named = rejections_text(before.take(64));
            assert((named + "; "@) == (named + "; "@));
        }
    }
}

/// What an export that was not admitted is answered: which status, whether it
/// may be sent again, and in what words.
pub proof fn a_refusal_names_its_reason(signal: AdmissionSignal, reply: Answer)
    requires
        call_ensures(answer, (Err(signal),), reply),
    ensures
        match signal {
            AdmissionSignal::QueueSaturated {
                queue,
                ceiling_bytes,
                attempted_bytes,
            } => reply matches Answer::Refusal { status, message, retryable } && status == 429
                && retryable && message@ == "the "@ + queue@ + " ingestion queue is at its "@
                + text::decimal(ceiling_bytes as nat)
                + "-byte in-flight ceiling and a record of "@ + text::decimal(
                attempted_bytes as nat,
            ) + " bytes did not fit; the only retryable admission signal — retry"@,
            AdmissionSignal::PayloadOverCap {
                bytes,
                ceiling_bytes,
            } => reply matches Answer::Refusal { status, message, retryable } && status == 413
                && !retryable && message@ == "the OTLP payload of "@ + text::decimal(bytes as nat)
                + " bytes"@ + " exceeds the "@ + text::decimal(ceiling_bytes as nat)
                + "-byte ceiling; refused before parsing, non-retryable"@,
            AdmissionSignal::MalformedRequest {
                detail,
            } => reply matches Answer::Refusal { status, message, retryable } && status == 400
                && !retryable && message@
                == "the payload did not parse as an OTLP export request and cannot be retried: "@
                + detail@,
            AdmissionSignal::ExportOverCap { .. } => reply is Success,
            AdmissionSignal::Draining => reply matches Answer::Refusal {
                status,
                message,
                retryable,
            } && status == 503 && !retryable && message@
                == "the runtime is draining and admits no new telemetry; re-delivery after restart will be admitted fresh"@,
        },
{
}

/// What a request is answered whose body could not be read, or may not be
/// buffered now.
pub proof fn an_unread_body_is_answered_by_its_failure(
    failure: ReadFailure,
    ceiling_bytes: usize,
    reply: Answer,
    budget_bytes: usize,
    exhausted: Answer,
)
    requires
        call_ensures(read_failure, (failure, ceiling_bytes), reply),
        call_ensures(inflight_over_budget, (budget_bytes,), exhausted),
    ensures
        reply matches Answer::Refusal { status, message, retryable } && !retryable && match failure {
            ReadFailure::OverCeiling => status == 413 && message@ == "the OTLP payload"@
                + " exceeds the "@ + text::decimal(ceiling_bytes as nat)
                + "-byte ceiling; refused before parsing, non-retryable"@,
            ReadFailure::Late => status == 408 && message@
                == "the request body did not arrive in full within the read deadline; refused at the transport edge"@,
            ReadFailure::Incomplete => status == 400 && message@
                == "the request body could not be read in full; the payload never arrived complete, so nothing was parsed or admitted"@,
        },
        exhausted matches Answer::Refusal { status, message, retryable } && status == 429
            && retryable && message@ == "the transport edge's in-flight-body budget of "@
            + text::decimal(budget_bytes as nat)
            + " bytes is exhausted; buffering another body now would breach the runtime's bounded-memory law. Retry when a buffered body completes"@,
{
}

/// Whether a header's text is the media type `name`, in whatever case and with
/// blanks around it, up to its end or to the semicolon before its parameters: the
/// name stands between `start` and `end`, and the parameters, if any, behind
/// `stop`.
pub open spec fn is_media_type(
    header: Seq<u8>,
    name: Seq<u8>,
    start: int,
    end: int,
    stop: int,
) -> bool {
    &&& 0 <= start <= end <= stop <= header.len()
    &&& stop == header.len() || header[stop] as char == ';'
    &&& forall|i: int| 0 <= i < stop ==> #[trigger] header[i] as char != ';'
    &&& forall|i: int| 0 <= i < start ==> text::is_blank(#[trigger] header[i])
    &&& forall|i: int| end <= i < stop ==> text::is_blank(#[trigger] header[i])
    &&& end - start == name.len()
    &&& forall|i: int| 0 <= i < name.len() ==> text::one_letter(header[start + i], #[trigger] name[i])
}

proof fn the_media_type_stands_before_its_parameters(header: Seq<u8>) -> (stop: int)
    ensures
        0 <= stop <= header.len(),
        stop == header.len() || header[stop] as char == ';',
        forall|i: int| 0 <= i < stop ==> #[trigger] header[i] as char != ';',
        text::before(header, 0x3b) == header.take(stop),
    decreases header.len(),
{
    if header.len() == 0 || header[0] == 0x3b {
        assert(header.take(0) =~= Seq::empty());
        0
    } else {
        let rest = header.skip(1);
        let stop = the_media_type_stands_before_its_parameters(rest);
        assert(seq![header[0]] + rest.take(stop) =~= header.take(stop + 1));
        assert(stop + 1 < header.len() ==> rest[stop] == header[stop + 1]);
        assert forall|i: int| 0 <= i < stop + 1 implies #[trigger] header[i] as char != ';' by {
            if i > 0 {
                assert(rest[i - 1] == header[i]);
            }
        }
        stop + 1
    }
}

/// A request is let through by its content type exactly where it declares none,
/// or declares `application/x-protobuf`; any other is refused and named.
pub proof fn only_protobuf_is_understood(content_type: Option<&str>, refusal: Option<Answer>)
    requires
        call_ensures(content_type_gate, (content_type,), refusal),
    ensures
        content_type is None ==> refusal is None,
        content_type matches Some(declared) ==> (refusal is None <==> exists|
            start: int,
            end: int,
            stop: int,
        |
            #[trigger] is_media_type(
                vstd::utf8::encode_utf8(declared@),
                vstd::utf8::encode_utf8("application/x-protobuf"@),
                start,
                end,
                stop,
            )),
        refusal matches Some(reply) ==> (reply matches Answer::Refusal {
            status,
            message,
            retryable,
        } && status == 415 && !retryable && message@
            == "this phase speaks OTLP/HTTP protobuf only ("@ + "application/x-protobuf"@
            + "); the request declared "@ + content_type->Some_0@
            + ", which is refused before reading"@),
{
    if let Some(declared) = content_type {
        let header = vstd::utf8::encode_utf8(declared@);
        let name = vstd::utf8::encode_utf8("application/x-protobuf"@);
        protobuf_begins_and_ends_with_a_letter();
        a_media_type_is_found(header, name);
    }
}

proof fn protobuf_begins_and_ends_with_a_letter()
    ensures
        ({
            let name = vstd::utf8::encode_utf8("application/x-protobuf"@);
            &&& name.len() > 0
            &&& forall|i: int| 0 <= i < name.len() ==> !text::is_blank(#[trigger] name[i])
                && name[i] >= 45
        }),
{
    reveal_strlit("application/x-protobuf");
    let text = "application/x-protobuf"@;
    assert(vstd::utf8::is_ascii_chars(text));
    vstd::utf8::is_ascii_chars_encode_utf8(text);
    let name = vstd::utf8::encode_utf8(text);
    assert forall|i: int| 0 <= i < name.len() implies !text::is_blank(#[trigger] name[i])
        && name[i] >= 45 by {
        assert(name[i] as char == text[i]);
        text::a_blank_is_a_space(name[i]);
    }
}

proof fn a_media_type_is_found(header: Seq<u8>, name: Seq<u8>)
    requires
        name.len() > 0,
        forall|i: int| 0 <= i < name.len() ==> !text::is_blank(#[trigger] name[i]) && name[i] >= 45,
    ensures
        text::same_ignoring_case(media_type(header), name) <==> exists|
            start: int,
            end: int,
            stop: int,
        |
            #[trigger] is_media_type(header, name, start, end, stop),
{
    let stop = the_media_type_stands_before_its_parameters(header);
    let front = header.take(stop);
    let (start, end) = text::only_blanks_are_trimmed(front);
    let found = media_type(header);
    text::case_alone_may_differ(found, name);
    if text::same_ignoring_case(found, name) {
        assert forall|i: int| 0 <= i < start implies text::is_blank(#[trigger] header[i]) by {
            assert(front[i] == header[i]);
        }
        assert forall|i: int| end <= i < stop implies text::is_blank(#[trigger] header[i]) by {
            assert(front[i] == header[i]);
        }
        assert forall|i: int| 0 <= i < name.len() implies text::one_letter(
            header[start + i],
            #[trigger] name[i],
        ) by {
            assert(found[i] == header[start + i]);
        }
        assert(is_media_type(header, name, start, end, stop));
    }
    if exists|a: int, b: int, c: int| #[trigger] is_media_type(header, name, a, b, c) {
        let (a, b, c) = choose|a: int, b: int, c: int| #[trigger]
            is_media_type(header, name, a, b, c);
        if c < stop {
            assert(header[c] as char == ';');
            assert(false);
        }
        if stop < c {
            assert(header[stop] as char != ';');
            assert(false);
        }
        assert(!text::is_blank(header[a]) && !text::is_blank(header[b - 1])) by {
            let last = name.len() - 1;
            assert(text::one_letter(header[a + 0], name[0]));
            assert(text::one_letter(header[a + last], name[last]));
            text::a_blank_is_a_space(header[a]);
            text::a_blank_is_a_space(header[b - 1]);
            text::a_blank_is_a_space(name[0]);
            text::a_blank_is_a_space(name[last]);
        }
        assert(front[a] == header[a] && front[b - 1] == header[b - 1]);
        if start < end {
            assert(front[start] == header[start] && front[end - 1] == header[end - 1]);
        }
        assert(start == a && end == b) by {
            if end <= start {
                if a < start {
                    assert(text::is_blank(front[a]));
                } else {
                    assert(text::is_blank(front[a]));
                }
            } else {
                if a < start {
                    assert(text::is_blank(front[a]));
                }
                if start < a {
                    assert(text::is_blank(header[start]));
                }
                if end < b {
                    assert(text::is_blank(front[b - 1]));
                }
                if b < end {
                    assert(text::is_blank(header[end - 1]));
                }
            }
        }
        assert forall|i: int| 0 <= i < found.len() implies text::one_letter(
            #[trigger] found[i],
            name[i],
        ) by {
            assert(found[i] == header[start + i]);
            assert(text::one_letter(header[start + i], name[i]));
        }
    }
}

/// A request declares a body over the ceiling exactly where its content length is
/// a number, and larger.
pub proof fn a_declared_length_is_held_to_the_ceiling(
    content_length: Option<&str>,
    ceiling_bytes: usize,
    over: bool,
)
    requires
        call_ensures(declared_over_ceiling, (content_length, ceiling_bytes), over),
    ensures
        content_length is None ==> !over,
        content_length matches Some(declared) ==> {
            let written = vstd::utf8::encode_utf8(declared@);
            let digits = if written.len() > 0 && written[0] as char == '+' {
                written.skip(1)
            } else {
                written
            };
            over <==> digits.len() > 0 && text::all_digits(digits) && ceiling_bytes
                < text::numeral_of(digits) <= u64::MAX
        },
{
    if let Some(declared) = content_length {
        let written = vstd::utf8::encode_utf8(declared@);
        text::a_text_is_its_number(written);
    }
}

/// What a request is refused for before its body is read: first that the runtime
/// is closing, then its content type, then its length.
pub proof fn a_request_is_refused_in_order(
    draining: bool,
    content_type: Option<&str>,
    content_length: Option<&str>,
    ceiling_bytes: usize,
    by_type: Option<Answer>,
    over: bool,
    refusal: Option<Answer>,
)
    requires
        call_ensures(content_type_gate, (content_type,), by_type),
        call_ensures(declared_over_ceiling, (content_length, ceiling_bytes), over),
        call_ensures(
            refused_unread,
            (draining, content_type, content_length, ceiling_bytes),
            refusal,
        ),
    ensures
        refusal is None <==> !draining && by_type is None && !over,
        refusal matches Some(reply) ==> (reply matches Answer::Refusal {
            status,
            message,
            retryable,
        } && !retryable && if draining {
            status == 503 && message@
                == "the runtime is draining and admits no new telemetry; re-delivery after restart will be admitted fresh"@
        } else if by_type is Some {
            by_type->Some_0@ == reply@
        } else {
            status == 413 && message@ == "the OTLP payload"@ + " exceeds the "@ + text::decimal(
                ceiling_bytes as nat,
            ) + "-byte ceiling; refused before parsing, non-retryable"@
        }),
{
}

/// The words of the protocol.
pub proof fn the_protocol_has_its_words()
    ensures
        PROTOBUF_MEDIA_TYPE@ == "application/x-protobuf"@,
        TEXT_MEDIA_TYPE@ == "text/plain; charset=utf-8"@,
        RETRY_AFTER_SECS@ == "1"@,
        MAX_NAMED_POSITIONS == 64,
{
}

}
