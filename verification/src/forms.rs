//! What the answer to an investigation says, member by member.
//!
//! Each predicate reads a JSON value as a caller does, by the names of its
//! members, and says that it shows one thing and all that is shown of it. Each
//! law says that the form in which that thing is written does.

use crate::engine::SignalKind;
use crate::investigation::{
    ChainBasis, ChainBudget, ChainSpend, Correlated, EffectiveRoot, EffectiveSubject, Evidence, EvidenceFact,
    EvictionState, FlowCoverageEntry, FlowError, FlowExecution, Investigation, InvestigationBudget,
    Limits, LogEvidence, PartName, PointEvidence, Relation, RelationType, ResolutionNote, RunFacts,
    RunGroup, SignalRef, SpanEvidence, StrategyVersion, Subject, TimeWindow,
    TraceInvestigationRequest,
};
use crate::investigation;
use crate::investigation_http;
use crate::investigation_http::{JsonAnswer, Render};
use crate::json;
use crate::json::Json;
use crate::model::{AnyValue, EntityId, MetricNumber, MetricPoint};
use crate::result::{
    BudgetRefusal, CoverageEntry, Dimension, Magnitude, PartOutcome, Truncation, TruncationPoint,
};
use crate::{model, text, time};
use std::time::Duration;
use vstd::prelude::*;

verus! {

/// A member that was added last holds its value, and leaves the others as they
/// were.
pub broadcast proof fn a_member_added_last_is_found(
    pairs: Seq<(Seq<char>, Json)>,
    pair: (Seq<char>, Json),
    name: Seq<char>,
)
    ensures
        #[trigger] json::member(json::object_of(pairs.push(pair)), name) == if pair.0 == name {
            Some(pair.1)
        } else {
            json::member(json::object_of(pairs), name)
        },
{
    assert(pairs.push(pair).drop_last() =~= pairs);
}

/// An object without members has none of any name.
pub broadcast proof fn no_members_are_found(name: Seq<char>)
    ensures
        #[trigger] json::member(json::object_of(json::none()), name) is None,
{
}

broadcast group members {
    a_member_added_last_is_found,
    no_members_are_found,
}

/// Whether an object has a member of this name.
pub open spec fn holds(form: Json, name: Seq<char>) -> bool {
    json::member(form, name) is Some
}

/// The member of this name.
pub open spec fn at(form: Json, name: Seq<char>) -> Json {
    json::member(form, name)->Some_0
}

/// Whether an object has a member of this name that is this number.
pub open spec fn counts(form: Json, name: Seq<char>, number: int) -> bool {
    json::member(form, name) == Some(Json::Integer(number))
}

/// Whether an object has a member of this name that is this number, or `null`
/// where there is none.
pub open spec fn may_count(form: Json, name: Seq<char>, number: Option<u64>) -> bool {
    match number {
        Some(number) => counts(form, name, number as int),
        None => json::member(form, name) == Some(Json::Null),
    }
}

/// Whether an object has a member of this name that is this text.
pub open spec fn reads(form: Json, name: Seq<char>, words: Seq<char>) -> bool {
    json::member(form, name) == Some(Json::String(words))
}

/// Whether an object has a member of this name that spells these bytes.
pub open spec fn spells(form: Json, name: Seq<char>, bytes: Seq<u8>) -> bool {
    json::member(form, name) matches Some(Json::String(digits)) && text::spells(digits, bytes)
}

/// Whether an object has a member of this name that is an array of this length.
pub open spec fn lists(form: Json, name: Seq<char>, length: nat) -> bool {
    json::member(form, name) matches Some(Json::Array(values)) && values.len() == length
}

/// One value of an array that is the member of this name.
pub open spec fn nth(form: Json, name: Seq<char>, index: int) -> Json {
    at(form, name)->Array_0[index]
}

/// Whether a form names a record: a span by its two ids, or an assigned one by its
/// serial.
pub open spec fn names(form: Json, entity: EntityId) -> bool {
    match entity {
        EntityId::Span { trace_id, span_id } => {
            &&& holds(form, "span"@)
            &&& spells(at(form, "span"@), "trace_id"@, trace_id@)
            &&& spells(at(form, "span"@), "span_id"@, span_id@)
        },
        EntityId::Assigned(id) => counts(form, "assigned"@, id@ as int),
    }
}

/// Whether an object has a member of this name that names this record.
pub open spec fn has_entity(form: Json, name: Seq<char>, entity: EntityId) -> bool {
    holds(form, name) && names(at(form, name), entity)
}

/// Whether an object has a member of this name that names this record, or `null`
/// where there is none.
pub open spec fn may_have_entity(form: Json, name: Seq<char>, entity: Option<EntityId>) -> bool {
    match entity {
        Some(entity) => has_entity(form, name, entity),
        None => json::member(form, name) == Some(Json::Null),
    }
}

/// A record's identity is shown by its ids or its serial.
pub proof fn an_entity_is_shown_by_its_numbers(entity: EntityId)
    ensures
        names(investigation_http::entity_json(entity), entity),
{
    broadcast use members;

    reveal_strlit("trace_id");
    reveal_strlit("span_id");
    assert("trace_id"@.len() == 8 && "span_id"@.len() == 7);
    if let EntityId::Span { trace_id, span_id } = entity {
        text::hexadecimal_spells_its_bytes(trace_id@);
        text::hexadecimal_spells_its_bytes(span_id@);
    }
}

/// Whether a form shows the root of a trace.
pub open spec fn shows_root(form: Json, root: EffectiveRoot) -> bool {
    &&& has_entity(form, "entity"@, root.entity)
    &&& reads(form, "name"@, root.name@)
    &&& spells(form, "trace_id"@, root.trace_id@)
    &&& spells(form, "span_id"@, root.span_id@)
}

/// The root of a trace is shown with its identity, its name and its ids.
pub proof fn a_root_is_shown(root: EffectiveRoot)
    ensures
        shows_root(root.json(), root),
{
    broadcast use members;

    reveal_strlit("entity");
    reveal_strlit("name");
    reveal_strlit("trace_id");
    reveal_strlit("span_id");
    assert("entity"@.len() == 6);
    assert("name"@.len() == 4);
    assert("trace_id"@.len() == 8);
    assert("span_id"@.len() == 7);
    an_entity_is_shown_by_its_numbers(root.entity);
    text::hexadecimal_spells_its_bytes(root.trace_id@);
    text::hexadecimal_spells_its_bytes(root.span_id@);
}

/// Whether a form shows how a root was found.
pub open spec fn shows_note(form: Json, note: ResolutionNote) -> bool {
    match note {
        ResolutionNote::RequestedSpanIsRoot => reads(form, "kind"@, "requested_span_is_root"@),
        ResolutionNote::TraceRootedAt { entity, name, span_id } => {
            &&& reads(form, "kind"@, "trace_rooted_at"@)
            &&& has_entity(form, "entity"@, entity)
            &&& reads(form, "name"@, name@)
            &&& spells(form, "span_id"@, span_id@)
        },
        ResolutionNote::NoParentlessSpanResident => reads(
            form,
            "kind"@,
            "no_parentless_span_resident"@,
        ),
        ResolutionNote::RootHasNoValidTraceIdentity => reads(
            form,
            "kind"@,
            "root_has_no_valid_trace_identity"@,
        ),
    }
}

/// How a root was found is shown by its kind, and the root by its own.
pub proof fn a_note_is_shown(note: ResolutionNote)
    ensures
        shows_note(note.json(), note),
{
    broadcast use members;

    reveal_strlit("kind");
    reveal_strlit("entity");
    reveal_strlit("name");
    reveal_strlit("span_id");
    assert("kind"@.len() == 4 && "kind"@[0] == 'k');
    assert("entity"@.len() == 6);
    assert("name"@.len() == 4 && "name"@[0] == 'n');
    assert("span_id"@.len() == 7);
    if let ResolutionNote::TraceRootedAt { entity, name, span_id } = note {
        an_entity_is_shown_by_its_numbers(entity);
        text::hexadecimal_spells_its_bytes(span_id@);
    }
}

/// Whether a form shows what was asked for and what it was taken for.
pub open spec fn shows_subject(form: Json, subject: Subject) -> bool {
    let effective = at(form, "effective"@);
    &&& holds(form, "requested"@)
    &&& has_entity(at(form, "requested"@), "root_span"@, subject.requested.root_span)
    &&& holds(form, "effective"@)
    &&& holds(effective, "root"@)
    &&& shows_root(at(effective, "root"@), subject.effective.root)
    &&& lists(effective, "notes"@, subject.effective.notes@.len())
    &&& forall|i: int|
        0 <= i < subject.effective.notes@.len() ==> shows_note(
            #[trigger] nth(effective, "notes"@, i),
            subject.effective.notes@[i],
        )
}

/// What was asked for is shown, and the root it was taken for with every note.
pub proof fn a_subject_is_shown(subject: Subject)
    ensures
        shows_subject(subject.json(), subject),
{
    broadcast use members;

    reveal_strlit("requested");
    reveal_strlit("effective");
    reveal_strlit("root_span");
    reveal_strlit("root");
    reveal_strlit("notes");
    assert("requested"@.len() == 9 && "requested"@[1] == 'e');
    assert("effective"@.len() == 9 && "effective"@[1] == 'f');
    assert("root_span"@.len() == 9 && "root_span"@[1] == 'o');
    assert("root"@.len() == 4);
    assert("notes"@.len() == 5);
    an_entity_is_shown_by_its_numbers(subject.requested.root_span);
    a_root_is_shown(subject.effective.root);
    let effective = subject.effective.json();
    assert forall|i: int| 0 <= i < subject.effective.notes@.len() implies shows_note(
        #[trigger] nth(effective, "notes"@, i),
        subject.effective.notes@[i],
    ) by {
        a_note_is_shown(subject.effective.notes@[i]);
    }
}

/// Whether a form is the name of a budget dimension.
pub open spec fn shows_dimension(form: Json, dimension: Dimension) -> bool {
    form == Json::String(
        match dimension {
            Dimension::Deadline => "deadline"@,
            Dimension::Results => "results"@,
            Dimension::Bytes => "bytes"@,
            Dimension::Scan => "scan"@,
            Dimension::AggregationMemory => "aggregation_memory"@,
        },
    )
}

/// Whether a form is the name of a part.
pub open spec fn shows_part(form: Json, part: PartName) -> bool {
    form == Json::String(
        match part {
            PartName::Spans => "spans"@,
            PartName::RelatedLogs => "related_logs"@,
            PartName::SurroundingMetrics => "surrounding_metrics"@,
        },
    )
}

/// Whether a form is the name of a signal kind.
pub open spec fn shows_kind(form: Json, kind: SignalKind) -> bool {
    form == Json::String(
        match kind {
            SignalKind::Spans => "spans"@,
            SignalKind::LogRecords => "log_records"@,
            SignalKind::MetricPoints => "metric_points"@,
        },
    )
}

/// Whether a form is the name of a type of relation.
pub open spec fn shows_relation_type(form: Json, relation_type: RelationType) -> bool {
    form == Json::String(
        match relation_type {
            RelationType::SpanIdentity => "span_identity"@,
            RelationType::TraceIdentity => "trace_identity"@,
            RelationType::ParentChild => "parent_child"@,
            RelationType::ResourceContext => "resource_context"@,
            RelationType::TemporalCoActivity => "temporal_co_activity"@,
            RelationType::ExemplarAttachment => "exemplar_attachment"@,
            RelationType::Inferred => "inferred"@,
        },
    )
}

/// Each of a few things is shown by its own name.
pub proof fn a_name_is_shown(
    dimension: Dimension,
    part: PartName,
    kind: SignalKind,
    relation_type: RelationType,
)
    ensures
        shows_dimension(dimension.json(), dimension),
        shows_part(part.json(), part),
        shows_kind(kind.json(), kind),
        shows_relation_type(relation_type.json(), relation_type),
{
}

/// Whether a form shows where a part was cut, and why.
pub open spec fn shows_truncation(form: Json, truncation: Truncation) -> bool {
    let position = at(form, "position"@);
    &&& holds(form, "dimension"@)
    &&& shows_dimension(at(form, "dimension"@), truncation.dimension)
    &&& holds(form, "position"@)
    &&& match truncation.position {
        TruncationPoint::Cursor(bytes) => holds(position, "cursor"@) && spells(
            at(position, "cursor"@),
            "hex"@,
            bytes@,
        ),
        TruncationPoint::LastExamined(entity) => has_entity(position, "last_examined"@, entity),
    }
    &&& counts(form, "omitted"@, truncation.omitted as int)
}

/// A cut is shown with its dimension, its position and how much it leaves out.
pub proof fn a_truncation_is_shown(truncation: Truncation)
    ensures
        shows_truncation(truncation.json(), truncation),
{
    broadcast use members;

    reveal_strlit("dimension");
    reveal_strlit("position");
    reveal_strlit("omitted");
    reveal_strlit("cursor");
    reveal_strlit("last_examined");
    reveal_strlit("hex");
    assert("dimension"@.len() == 9);
    assert("position"@.len() == 8);
    assert("omitted"@.len() == 7);
    assert("cursor"@.len() == 6);
    assert("last_examined"@.len() == 13);
    assert("hex"@.len() == 3);
    match truncation.position {
        TruncationPoint::Cursor(bytes) => {
            text::hexadecimal_spells_its_bytes(bytes@);
        },
        TruncationPoint::LastExamined(entity) => {
            an_entity_is_shown_by_its_numbers(entity);
        },
    }
}

/// Whether a form shows one thing that a run did not cover.
pub open spec fn shows_coverage(form: Json, entry: CoverageEntry) -> bool {
    match entry {
        CoverageEntry::EvictionGap { after, before } => {
            &&& reads(form, "kind"@, "eviction_gap"@)
            &&& has_entity(form, "after"@, after)
            &&& has_entity(form, "before"@, before)
        },
        CoverageEntry::SnapshotBoundary { admission } => {
            &&& reads(form, "kind"@, "snapshot_boundary"@)
            &&& counts(form, "admission_time_unix_nano"@, admission.nanos() as int)
            &&& has_entity(form, "entity"@, admission.entity_id())
        },
        CoverageEntry::UncountedTail { after, dimension } => {
            &&& reads(form, "kind"@, "uncounted_tail"@)
            &&& has_entity(form, "after"@, after)
            &&& holds(form, "dimension"@)
            &&& shows_dimension(at(form, "dimension"@), dimension)
        },
        CoverageEntry::DriverStall { after } => {
            &&& reads(form, "kind"@, "driver_stall"@)
            &&& has_entity(form, "after"@, after)
        },
    }
}

/// What a run did not cover is shown by its kind, with all that it names.
pub proof fn a_coverage_entry_is_shown(entry: CoverageEntry)
    ensures
        shows_coverage(entry.json(), entry),
{
    broadcast use members;

    reveal_strlit("kind");
    reveal_strlit("after");
    reveal_strlit("before");
    reveal_strlit("admission_time_unix_nano");
    reveal_strlit("entity");
    reveal_strlit("dimension");
    assert("kind"@.len() == 4);
    assert("after"@.len() == 5);
    assert("before"@.len() == 6 && "before"@[0] == 'b');
    assert("admission_time_unix_nano"@.len() == 24);
    assert("entity"@.len() == 6 && "entity"@[0] == 'e');
    assert("dimension"@.len() == 9);
    match entry {
        CoverageEntry::EvictionGap { after, before } => {
            an_entity_is_shown_by_its_numbers(after);
            an_entity_is_shown_by_its_numbers(before);
        },
        CoverageEntry::SnapshotBoundary { admission } => {
            an_entity_is_shown_by_its_numbers(admission.entity_id());
        },
        CoverageEntry::UncountedTail { after, .. } => {
            an_entity_is_shown_by_its_numbers(after);
        },
        CoverageEntry::DriverStall { after } => {
            an_entity_is_shown_by_its_numbers(after);
        },
    }
}

/// Whether a form shows a window of time.
pub open spec fn shows_window(form: Json, window: TimeWindow) -> bool {
    counts(form, "from"@, window.from as int) && counts(form, "to"@, window.to as int)
}

/// A window is shown by where it begins and ends.
pub proof fn a_window_is_shown(window: TimeWindow)
    ensures
        shows_window(window.json(), window),
{
    broadcast use members;

    reveal_strlit("from");
    reveal_strlit("to");
    assert("from"@.len() == 4);
    assert("to"@.len() == 2);
}

/// Whether a form shows one thing that the answer as a whole did not cover.
pub open spec fn shows_flow_coverage(form: Json, entry: FlowCoverageEntry) -> bool {
    match entry {
        FlowCoverageEntry::MetricWindow { asked, resident } => {
            &&& reads(form, "kind"@, "metric_window"@)
            &&& holds(form, "asked"@)
            &&& shows_window(at(form, "asked"@), asked)
            &&& holds(form, "resident"@)
            &&& shows_window(at(form, "resident"@), resident)
        },
        FlowCoverageEntry::AdmissionAnomalies { total } => {
            &&& reads(form, "kind"@, "admission_anomalies"@)
            &&& counts(form, "total"@, total as int)
        },
        FlowCoverageEntry::ResidencyHole { part, count } => {
            &&& reads(form, "kind"@, "residency_hole"@)
            &&& holds(form, "part"@)
            &&& shows_part(at(form, "part"@), part)
            &&& counts(form, "count"@, count as int)
        },
    }
}

/// What the answer as a whole did not cover is shown by its kind and numbers.
pub proof fn a_flow_coverage_entry_is_shown(entry: FlowCoverageEntry)
    ensures
        shows_flow_coverage(entry.json(), entry),
{
    broadcast use members;

    reveal_strlit("kind");
    reveal_strlit("asked");
    reveal_strlit("resident");
    reveal_strlit("total");
    reveal_strlit("part");
    reveal_strlit("count");
    assert("kind"@.len() == 4 && "kind"@[0] == 'k');
    assert("asked"@.len() == 5 && "asked"@[0] == 'a');
    assert("resident"@.len() == 8);
    assert("total"@.len() == 5 && "total"@[0] == 't');
    assert("part"@.len() == 4 && "part"@[0] == 'p');
    assert("count"@.len() == 5 && "count"@[0] == 'c');
    if let FlowCoverageEntry::MetricWindow { asked, resident } = entry {
        a_window_is_shown(asked);
        a_window_is_shown(resident);
    }
}

/// Whether a form shows a magnitude: time by its whole milliseconds.
pub open spec fn shows_magnitude(form: Json, magnitude: Magnitude) -> bool {
    match magnitude {
        Magnitude::Duration(duration) => counts(
            form,
            "duration_ms"@,
            time::duration_nanos(duration) as int / 1_000_000,
        ),
        Magnitude::Units(units) => counts(form, "units"@, units as int),
        Magnitude::Bytes(bytes) => counts(form, "bytes"@, bytes as int),
    }
}

/// Whether a form shows why a part was refused.
pub open spec fn shows_refusal(form: Json, refusal: BudgetRefusal) -> bool {
    &&& holds(form, "dimension"@)
    &&& shows_dimension(at(form, "dimension"@), refusal.dimension)
    &&& holds(form, "limit"@)
    &&& shows_magnitude(at(form, "limit"@), refusal.limit)
    &&& holds(form, "observed"@)
    &&& shows_magnitude(at(form, "observed"@), refusal.observed)
}

/// A refusal is shown with its dimension, the limit and what was observed.
pub proof fn a_refusal_is_shown(refusal: BudgetRefusal)
    ensures
        shows_refusal(investigation_http::refusal_json(refusal), refusal),
{
    broadcast use members;

    reveal_strlit("dimension");
    reveal_strlit("limit");
    reveal_strlit("observed");
    reveal_strlit("duration_ms");
    reveal_strlit("units");
    reveal_strlit("bytes");
    assert("dimension"@.len() == 9);
    assert("limit"@.len() == 5 && "limit"@[0] == 'l');
    assert("observed"@.len() == 8);
    assert("duration_ms"@.len() == 11);
    assert("units"@.len() == 5 && "units"@[0] == 'u');
    assert("bytes"@.len() == 5 && "bytes"@[0] == 'b');
}

/// Whether a form shows how a run ended.
pub open spec fn shows_outcome(form: Json, outcome: PartOutcome) -> bool {
    match outcome {
        PartOutcome::Complete => reads(form, "kind"@, "complete"@),
        PartOutcome::Degraded { truncation } => {
            &&& reads(form, "kind"@, "degraded"@)
            &&& holds(form, "truncation"@)
            &&& shows_truncation(at(form, "truncation"@), truncation)
        },
        PartOutcome::Refused(refusal) => {
            &&& reads(form, "kind"@, "refused"@)
            &&& holds(form, "refusal"@)
            &&& shows_refusal(at(form, "refusal"@), refusal)
        },
        PartOutcome::Stalled => reads(form, "kind"@, "stalled"@),
    }
}

/// How a run ended is shown by its kind, with the cut or the refusal.
pub proof fn an_outcome_is_shown(outcome: PartOutcome)
    ensures
        shows_outcome(investigation_http::outcome_json(outcome), outcome),
{
    broadcast use members;

    reveal_strlit("kind");
    reveal_strlit("truncation");
    reveal_strlit("refusal");
    assert("kind"@.len() == 4);
    assert("truncation"@.len() == 10);
    assert("refusal"@.len() == 7);
    match outcome {
        PartOutcome::Degraded { truncation } => {
            a_truncation_is_shown(truncation);
        },
        PartOutcome::Refused(refusal) => {
            a_refusal_is_shown(refusal);
        },
        _ => {},
    }
}

/// Whether a form shows what a run did.
pub open spec fn shows_run(form: Json, run: RunFacts) -> bool {
    &&& holds(form, "outcome"@)
    &&& shows_outcome(at(form, "outcome"@), run.outcome)
    &&& lists(form, "coverage"@, run.coverage@.len())
    &&& forall|i: int|
        0 <= i < run.coverage@.len() ==> shows_coverage(
            #[trigger] nth(form, "coverage"@, i),
            run.coverage@[i],
        )
    &&& match run.next_cursor {
        Some(cursor) => holds(form, "next_cursor"@) && spells(
            at(form, "next_cursor"@),
            "hex"@,
            cursor@,
        ),
        None => json::member(form, "next_cursor"@) == Some(Json::Null),
    }
}

/// What a run did is shown with its outcome, its coverage and its continuation.
pub proof fn a_run_is_shown(run: RunFacts)
    ensures
        shows_run(investigation_http::run_json(run), run),
{
    broadcast use members;

    reveal_strlit("outcome");
    reveal_strlit("coverage");
    reveal_strlit("next_cursor");
    reveal_strlit("hex");
    assert("outcome"@.len() == 7);
    assert("coverage"@.len() == 8);
    assert("next_cursor"@.len() == 11);
    assert("hex"@.len() == 3);
    an_outcome_is_shown(run.outcome);
    if let Some(cursor) = run.next_cursor {
        text::hexadecimal_spells_its_bytes(cursor@);
    }
    let form = investigation_http::run_json(run);
    assert forall|i: int| 0 <= i < run.coverage@.len() implies shows_coverage(
        #[trigger] nth(form, "coverage"@, i),
        run.coverage@[i],
    ) by {
        a_coverage_entry_is_shown(run.coverage@[i]);
    }
}

/// Whether a form shows the runs of one part.
pub open spec fn shows_group(form: Json, group: RunGroup) -> bool {
    &&& holds(form, "part"@)
    &&& shows_part(at(form, "part"@), group.part)
    &&& lists(form, "runs"@, group.runs@.len())
    &&& forall|i: int|
        0 <= i < group.runs@.len() ==> shows_run(#[trigger] nth(form, "runs"@, i), group.runs@[i])
}

/// The runs of a part are shown under its name, each in its place.
pub proof fn a_group_is_shown(group: RunGroup)
    ensures
        shows_group(investigation_http::group_json(group), group),
{
    broadcast use members;

    reveal_strlit("part");
    reveal_strlit("runs");
    assert("part"@.len() == 4 && "part"@[0] == 'p');
    assert("runs"@.len() == 4 && "runs"@[0] == 'r');
    let form = investigation_http::group_json(group);
    assert forall|i: int| 0 <= i < group.runs@.len() implies shows_run(
        #[trigger] nth(form, "runs"@, i),
        group.runs@[i],
    ) by {
        a_run_is_shown(group.runs@[i]);
    }
}

/// Whether a form shows what the work did.
pub open spec fn shows_execution(form: Json, execution: FlowExecution) -> bool {
    &&& lists(form, "run_groups"@, execution.run_groups@.len())
    &&& forall|i: int|
        0 <= i < execution.run_groups@.len() ==> shows_group(
            #[trigger] nth(form, "run_groups"@, i),
            execution.run_groups@[i],
        )
    &&& lists(form, "flow_coverage"@, execution.flow_coverage@.len())
    &&& forall|i: int|
        0 <= i < execution.flow_coverage@.len() ==> shows_flow_coverage(
            #[trigger] nth(form, "flow_coverage"@, i),
            execution.flow_coverage@[i],
        )
}

/// What the work did is shown group by group, and what it did not cover.
pub proof fn an_execution_is_shown(execution: FlowExecution)
    ensures
        shows_execution(investigation_http::execution_json(execution), execution),
{
    broadcast use members;

    reveal_strlit("run_groups");
    reveal_strlit("flow_coverage");
    assert("run_groups"@.len() == 10);
    assert("flow_coverage"@.len() == 13);
    let form = investigation_http::execution_json(execution);
    assert forall|i: int| 0 <= i < execution.run_groups@.len() implies shows_group(
        #[trigger] nth(form, "run_groups"@, i),
        execution.run_groups@[i],
    ) by {
        a_group_is_shown(execution.run_groups@[i]);
    }
    assert forall|i: int| 0 <= i < execution.flow_coverage@.len() implies shows_flow_coverage(
        #[trigger] nth(form, "flow_coverage"@, i),
        execution.flow_coverage@[i],
    ) by {
        a_flow_coverage_entry_is_shown(execution.flow_coverage@[i]);
    }
}

/// Whether a form shows a value: bytes are spelled, what is made of other values
/// is `null`, and a double is as `double` shows it.
pub open spec fn shows_value(form: Json, value: AnyValue, double: Json) -> bool {
    match value {
        AnyValue::String(words) => form == Json::String(words@),
        AnyValue::Int(number) => form == Json::Integer(number as int),
        AnyValue::Double(_) => form == double,
        AnyValue::Bool(flag) => form == Json::Bool(flag),
        AnyValue::Bytes(bytes) => form matches Json::String(digits) && text::spells(digits, bytes@),
        AnyValue::Array(_) => form == Json::Null,
        AnyValue::KvList(_) => form == Json::Null,
    }
}

/// A value is shown as what it is.
pub proof fn a_value_is_shown(value: AnyValue, double: Json)
    ensures
        shows_value(investigation_http::value_json(value, double), value, double),
{
    if let AnyValue::Bytes(bytes) = value {
        text::hexadecimal_spells_its_bytes(bytes@);
    }
}

/// Whether a form shows a record of some kind.
pub open spec fn shows_signal(form: Json, signal: SignalRef) -> bool {
    &&& holds(form, "kind"@)
    &&& shows_kind(at(form, "kind"@), signal.kind)
    &&& has_entity(form, "entity"@, signal.entity)
}

/// Whether a form shows what a relation rests on.
pub open spec fn shows_fact(form: Json, fact: EvidenceFact) -> bool {
    &&& reads(form, "field"@, fact.field@)
    &&& holds(form, "value"@)
    &&& shows_value(at(form, "value"@), fact.value, json::json_of(fact.double))
}

/// Whether a form shows a strategy.
pub open spec fn shows_strategy(form: Json, strategy: StrategyVersion) -> bool {
    reads(form, "name"@, strategy.name@) && counts(form, "version"@, strategy.version as int)
}

/// A record is shown with its kind and identity.
pub proof fn a_signal_is_shown(signal: SignalRef)
    ensures
        shows_signal(signal.json(), signal),
{
    broadcast use members;

    reveal_strlit("kind");
    reveal_strlit("entity");
    assert("kind"@.len() == 4);
    assert("entity"@.len() == 6);
    an_entity_is_shown_by_its_numbers(signal.entity);
}

/// A fact is shown with its field and value.
pub proof fn a_fact_is_shown(fact: EvidenceFact)
    ensures
        shows_fact(fact.json(), fact),
{
    broadcast use members;

    reveal_strlit("field");
    reveal_strlit("value");
    assert("field"@.len() == 5 && "field"@[0] == 'f');
    assert("value"@.len() == 5 && "value"@[0] == 'v');
    a_value_is_shown(fact.value, json::json_of(fact.double));
}

/// A strategy is shown with its name and version.
pub proof fn a_strategy_is_shown(strategy: StrategyVersion)
    ensures
        shows_strategy(strategy.json(), strategy),
{
    broadcast use members;

    reveal_strlit("name");
    reveal_strlit("version");
    assert("name"@.len() == 4);
    assert("version"@.len() == 7);
}

/// Whether a form shows a relation.
pub open spec fn shows_relation(form: Json, relation: Relation) -> bool {
    &&& holds(form, "type"@)
    &&& shows_relation_type(at(form, "type"@), relation.relation_type)
    &&& holds(form, "from"@)
    &&& shows_signal(at(form, "from"@), relation.from)
    &&& holds(form, "to"@)
    &&& shows_signal(at(form, "to"@), relation.to)
    &&& lists(form, "facts"@, relation.facts@.len())
    &&& forall|i: int|
        0 <= i < relation.facts@.len() ==> shows_fact(
            #[trigger] nth(form, "facts"@, i),
            relation.facts@[i],
        )
    &&& holds(form, "strategy"@)
    &&& shows_strategy(at(form, "strategy"@), relation.strategy)
    &&& match relation.window {
        Some(window) => holds(form, "window"@) && shows_window(at(form, "window"@), window),
        None => json::member(form, "window"@) == Some(Json::Null),
    }
}

/// A relation is shown with its type, its ends, its facts, its strategy and its window.
pub proof fn a_relation_is_shown(relation: Relation)
    ensures
        shows_relation(relation.json(), relation),
{
    broadcast use members;

    reveal_strlit("type");
    reveal_strlit("from");
    reveal_strlit("to");
    reveal_strlit("facts");
    reveal_strlit("strategy");
    reveal_strlit("window");
    assert("type"@.len() == 4 && "type"@[0] == 't');
    assert("from"@.len() == 4 && "from"@[0] == 'f');
    assert("to"@.len() == 2);
    assert("facts"@.len() == 5);
    assert("strategy"@.len() == 8);
    assert("window"@.len() == 6);
    a_signal_is_shown(relation.from);
    a_signal_is_shown(relation.to);
    a_strategy_is_shown(relation.strategy);
    if let Some(window) = relation.window {
        a_window_is_shown(window);
    }
    let form = relation.json();
    assert forall|i: int| 0 <= i < relation.facts@.len() implies shows_fact(
        #[trigger] nth(form, "facts"@, i),
        relation.facts@[i],
    ) by {
        a_fact_is_shown(relation.facts@[i]);
    }
}

/// Whether a form shows what is related to what.
pub open spec fn shows_correlated(form: Json, correlated: Correlated) -> bool {
    &&& lists(form, "relations"@, correlated.relations@.len())
    &&& forall|i: int|
        0 <= i < correlated.relations@.len() ==> shows_relation(
            #[trigger] nth(form, "relations"@, i),
            correlated.relations@[i],
        )
}

/// Every relation is shown, in its place.
pub proof fn the_relations_are_shown(correlated: Correlated)
    ensures
        shows_correlated(correlated.json(), correlated),
{
    broadcast use members;

    reveal_strlit("relations");
    let form = correlated.json();
    assert forall|i: int| 0 <= i < correlated.relations@.len() implies shows_relation(
        #[trigger] nth(form, "relations"@, i),
        correlated.relations@[i],
    ) by {
        a_relation_is_shown(correlated.relations@[i]);
    }
}

/// Whether a form shows a span of an answer.
pub open spec fn shows_span(form: Json, evidence: SpanEvidence) -> bool {
    let span = at(form, "span"@);
    &&& may_have_entity(form, "entity"@, evidence.entity)
    &&& holds(form, "span"@)
    &&& spells(span, "trace_id"@, evidence.span.context.trace_id@)
    &&& spells(span, "span_id"@, evidence.span.context.span_id@)
    &&& match evidence.span.parent_span_id {
        Some(parent) => spells(span, "parent_span_id"@, parent@),
        None => json::member(span, "parent_span_id"@) == Some(Json::Null),
    }
    &&& reads(span, "name"@, evidence.span.name@)
    &&& counts(span, "start_time_unix_nano"@, evidence.span.start_time_unix_nano as int)
    &&& may_count(span, "end_time_unix_nano"@, evidence.span.end_time_unix_nano)
}

/// A span is shown with its ids, its parent, its name and its times.
pub proof fn a_span_is_shown(evidence: SpanEvidence)
    ensures
        shows_span(evidence.json(), evidence),
{
    broadcast use members;

    reveal_strlit("entity");
    reveal_strlit("span");
    reveal_strlit("trace_id");
    reveal_strlit("span_id");
    reveal_strlit("parent_span_id");
    reveal_strlit("name");
    reveal_strlit("start_time_unix_nano");
    reveal_strlit("end_time_unix_nano");
    assert("entity"@.len() == 6);
    assert("span"@.len() == 4 && "span"@[0] == 's');
    assert("trace_id"@.len() == 8);
    assert("span_id"@.len() == 7);
    assert("parent_span_id"@.len() == 14);
    assert("name"@.len() == 4 && "name"@[0] == 'n');
    assert("start_time_unix_nano"@.len() == 20);
    assert("end_time_unix_nano"@.len() == 18);
    if let Some(entity) = evidence.entity {
        an_entity_is_shown_by_its_numbers(entity);
    }
    if let Some(parent) = evidence.span.parent_span_id {
        text::hexadecimal_spells_its_bytes(parent@);
    }
    text::hexadecimal_spells_its_bytes(evidence.span.context.trace_id@);
    text::hexadecimal_spells_its_bytes(evidence.span.context.span_id@);
}

/// Whether a form shows a log record of an answer.
pub open spec fn shows_log(form: Json, evidence: LogEvidence) -> bool {
    let log = at(form, "log"@);
    &&& may_have_entity(form, "entity"@, evidence.entity)
    &&& holds(form, "log"@)
    &&& may_count(log, "timestamp_unix_nano"@, evidence.log.timestamp_unix_nano)
    &&& may_count(log, "observed_timestamp_unix_nano"@, evidence.log.observed_timestamp_unix_nano)
    &&& match evidence.log.body {
        Some(body) => holds(log, "body"@) && shows_value(
            at(log, "body"@),
            body,
            json::json_of(evidence.double),
        ),
        None => json::member(log, "body"@) == Some(Json::Null),
    }
    &&& match evidence.log.trace_id {
        Some(trace_id) => spells(log, "trace_id"@, trace_id@),
        None => json::member(log, "trace_id"@) == Some(Json::Null),
    }
    &&& match evidence.log.span_id {
        Some(span_id) => spells(log, "span_id"@, span_id@),
        None => json::member(log, "span_id"@) == Some(Json::Null),
    }
}

/// A log record is shown with its times, its body, and the ids of its trace and span.
pub proof fn a_log_record_is_shown(evidence: LogEvidence)
    ensures
        shows_log(evidence.json(), evidence),
{
    broadcast use members;

    reveal_strlit("entity");
    reveal_strlit("log");
    reveal_strlit("timestamp_unix_nano");
    reveal_strlit("observed_timestamp_unix_nano");
    reveal_strlit("body");
    reveal_strlit("trace_id");
    reveal_strlit("span_id");
    assert("entity"@.len() == 6);
    assert("log"@.len() == 3);
    assert("timestamp_unix_nano"@.len() == 19);
    assert("observed_timestamp_unix_nano"@.len() == 28);
    assert("body"@.len() == 4);
    assert("trace_id"@.len() == 8);
    assert("span_id"@.len() == 7);
    if let Some(entity) = evidence.entity {
        an_entity_is_shown_by_its_numbers(entity);
    }
    if let Some(body) = evidence.log.body {
        a_value_is_shown(body, json::json_of(evidence.double));
    }
    if let Some(trace_id) = evidence.log.trace_id {
        text::hexadecimal_spells_its_bytes(trace_id@);
    }
    if let Some(span_id) = evidence.log.span_id {
        text::hexadecimal_spells_its_bytes(span_id@);
    }
}

/// Whether a form shows a metric point of an answer: of a distribution only its
/// shape.
pub open spec fn shows_point(form: Json, evidence: PointEvidence) -> bool {
    let point = at(form, "point"@);
    &&& may_have_entity(form, "entity"@, evidence.entity)
    &&& holds(form, "point"@)
    &&& match *evidence.point {
        MetricPoint::Number(number) => {
            &&& reads(point, "shape"@, "number"@)
            &&& counts(point, "time_unix_nano"@, number.time_unix_nano as int)
            &&& holds(point, "value"@)
            &&& match number.value {
                MetricNumber::Int(value) => counts(at(point, "value"@), "int"@, value as int),
                MetricNumber::Double(_) => json::member(at(point, "value"@), "double"@) == Some(
                    json::json_of(evidence.double),
                ),
            }
        },
        MetricPoint::Histogram(_) => reads(point, "shape"@, "histogram"@),
        MetricPoint::ExponentialHistogram(_) => reads(point, "shape"@, "exponential_histogram"@),
        MetricPoint::Summary(_) => reads(point, "shape"@, "summary"@),
    }
    &&& holds(form, "stream"@)
    &&& reads(at(form, "stream"@), "name"@, evidence.stream.name@)
}

/// A metric point is shown with its shape and its stream's name, a number with its time and value.
pub proof fn a_metric_point_is_shown(evidence: PointEvidence)
    ensures
        shows_point(evidence.json(), evidence),
{
    broadcast use members;

    reveal_strlit("entity");
    reveal_strlit("point");
    reveal_strlit("stream");
    reveal_strlit("shape");
    reveal_strlit("time_unix_nano");
    reveal_strlit("value");
    reveal_strlit("int");
    reveal_strlit("double");
    reveal_strlit("name");
    assert("entity"@.len() == 6 && "entity"@[0] == 'e');
    assert("point"@.len() == 5 && "point"@[0] == 'p');
    assert("stream"@.len() == 6 && "stream"@[0] == 's');
    assert("shape"@.len() == 5 && "shape"@[0] == 's');
    assert("time_unix_nano"@.len() == 14);
    assert("value"@.len() == 5 && "value"@[0] == 'v');
    assert("int"@.len() == 3);
    assert("double"@.len() == 6 && "double"@[0] == 'd');
    assert("name"@.len() == 4);
    if let Some(entity) = evidence.entity {
        an_entity_is_shown_by_its_numbers(entity);
    }
}

/// Whether a form shows the records of an answer.
pub open spec fn shows_evidence(form: Json, evidence: Evidence) -> bool {
    &&& lists(form, "spans"@, evidence.spans@.len())
    &&& forall|i: int|
        0 <= i < evidence.spans@.len() ==> shows_span(
            #[trigger] nth(form, "spans"@, i),
            evidence.spans@[i],
        )
    &&& lists(form, "logs"@, evidence.logs@.len())
    &&& forall|i: int|
        0 <= i < evidence.logs@.len() ==> shows_log(
            #[trigger] nth(form, "logs"@, i),
            evidence.logs@[i],
        )
    &&& lists(form, "points"@, evidence.points@.len())
    &&& forall|i: int|
        0 <= i < evidence.points@.len() ==> shows_point(
            #[trigger] nth(form, "points"@, i),
            evidence.points@[i],
        )
}

/// Every record of an answer is shown under its kind, in its place.
pub proof fn the_evidence_is_shown(evidence: Evidence)
    ensures
        shows_evidence(evidence.json(), evidence),
{
    broadcast use members;

    reveal_strlit("spans");
    reveal_strlit("logs");
    reveal_strlit("points");
    assert("spans"@.len() == 5);
    assert("logs"@.len() == 4);
    assert("points"@.len() == 6);
    let form = evidence.json();
    assert forall|i: int| 0 <= i < evidence.spans@.len() implies shows_span(
        #[trigger] nth(form, "spans"@, i),
        evidence.spans@[i],
    ) by {
        a_span_is_shown(evidence.spans@[i]);
    }
    assert forall|i: int| 0 <= i < evidence.logs@.len() implies shows_log(
        #[trigger] nth(form, "logs"@, i),
        evidence.logs@[i],
    ) by {
        a_log_record_is_shown(evidence.logs@[i]);
    }
    assert forall|i: int| 0 <= i < evidence.points@.len() implies shows_point(
        #[trigger] nth(form, "points"@, i),
        evidence.points@[i],
    ) by {
        a_metric_point_is_shown(evidence.points@[i]);
    }
}

/// Whether a form shows what the pages of an investigation spent together.
pub open spec fn shows_chain(form: Json, chain: ChainSpend) -> bool {
    &&& counts(form, "max_total_entities"@, chain.max_total_entities as int)
    &&& counts(form, "max_total_pages"@, chain.max_total_pages as int)
    &&& counts(form, "total_entities"@, chain.total_entities as int)
    &&& counts(form, "total_pages"@, chain.total_pages as int)
    &&& counts(form, "identity_examinations"@, chain.identity_examinations as int)
    &&& match chain.stopped {
        Some(ChainBasis::TotalEntities) => reads(form, "stopped"@, "total_entities"@),
        Some(ChainBasis::TotalPages) => reads(form, "stopped"@, "total_pages"@),
        None => json::member(form, "stopped"@) == Some(Json::Null),
    }
}

/// What the pages spent together is shown beside what they could.
pub proof fn a_chain_is_shown(chain: ChainSpend)
    ensures
        shows_chain(chain.json(), chain),
{
    broadcast use members;

    reveal_strlit("max_total_entities");
    reveal_strlit("max_total_pages");
    reveal_strlit("total_entities");
    reveal_strlit("total_pages");
    reveal_strlit("identity_examinations");
    reveal_strlit("stopped");
    assert("max_total_entities"@.len() == 18);
    assert("max_total_pages"@.len() == 15);
    assert("total_entities"@.len() == 14);
    assert("total_pages"@.len() == 11);
    assert("identity_examinations"@.len() == 21);
    assert("stopped"@.len() == 7);
}

/// Whether a form shows what each page could spend.
pub open spec fn shows_budget(form: Json, budget: InvestigationBudget) -> bool {
    &&& counts(form, "deadline_ms"@, time::duration_nanos(budget.deadline) as int / 1_000_000)
    &&& counts(form, "max_results"@, budget.max_results as int)
    &&& counts(form, "max_bytes"@, budget.max_bytes as int)
    &&& counts(form, "max_scan"@, budget.max_scan as int)
    &&& counts(form, "max_aggregation_memory"@, budget.max_aggregation_memory as int)
}

/// What each page could spend is shown, time by its whole milliseconds.
pub proof fn a_budget_is_shown(budget: InvestigationBudget)
    ensures
        shows_budget(investigation_http::budget_json(budget), budget),
{
    broadcast use members;

    reveal_strlit("deadline_ms");
    reveal_strlit("max_results");
    reveal_strlit("max_bytes");
    reveal_strlit("max_scan");
    reveal_strlit("max_aggregation_memory");
    assert("deadline_ms"@.len() == 11 && "deadline_ms"@[0] == 'd');
    assert("max_results"@.len() == 11 && "max_results"@[0] == 'm');
    assert("max_bytes"@.len() == 9);
    assert("max_scan"@.len() == 8);
    assert("max_aggregation_memory"@.len() == 22);
}

/// Whether a form shows what the store held.
pub open spec fn shows_eviction(form: Json, eviction: EvictionState) -> bool {
    &&& counts(form, "resident_records"@, eviction.resident_records as int)
    &&& counts(form, "total_evictions"@, eviction.total_evictions as int)
}

/// What the store held and what had left it are shown.
pub proof fn an_eviction_state_is_shown(eviction: EvictionState)
    ensures
        shows_eviction(eviction.json(), eviction),
{
    broadcast use members;

    reveal_strlit("resident_records");
    reveal_strlit("total_evictions");
    assert("resident_records"@.len() == 16);
    assert("total_evictions"@.len() == 15);
}

/// Whether a form shows what the work could spend, and did.
pub open spec fn shows_limits(form: Json, limits: Limits) -> bool {
    &&& holds(form, "budget"@)
    &&& shows_budget(at(form, "budget"@), limits.budget)
    &&& holds(form, "chain"@)
    &&& shows_chain(at(form, "chain"@), limits.chain)
    &&& lists(form, "strategy_versions"@, limits.strategy_versions@.len())
    &&& forall|i: int|
        0 <= i < limits.strategy_versions@.len() ==> shows_strategy(
            #[trigger] nth(form, "strategy_versions"@, i),
            limits.strategy_versions@[i],
        )
    &&& holds(form, "eviction"@)
    &&& shows_eviction(at(form, "eviction"@), limits.eviction)
}

/// What the work could spend, and did, is shown, with the strategies and the store.
pub proof fn the_limits_are_shown(limits: Limits)
    ensures
        shows_limits(investigation_http::limits_json(limits), limits),
{
    broadcast use members;

    reveal_strlit("budget");
    reveal_strlit("chain");
    reveal_strlit("strategy_versions");
    reveal_strlit("eviction");
    assert("budget"@.len() == 6);
    assert("chain"@.len() == 5);
    assert("strategy_versions"@.len() == 17);
    assert("eviction"@.len() == 8);
    a_budget_is_shown(limits.budget);
    a_chain_is_shown(limits.chain);
    an_eviction_state_is_shown(limits.eviction);
    let form = investigation_http::limits_json(limits);
    assert forall|i: int| 0 <= i < limits.strategy_versions@.len() implies shows_strategy(
        #[trigger] nth(form, "strategy_versions"@, i),
        limits.strategy_versions@[i],
    ) by {
        a_strategy_is_shown(limits.strategy_versions@[i]);
    }
}

/// Whether a form shows an investigation.
pub open spec fn shows_investigation(form: Json, investigation: Investigation) -> bool {
    &&& holds(form, "subject"@)
    &&& shows_subject(at(form, "subject"@), investigation.subject)
    &&& holds(form, "execution"@)
    &&& shows_execution(at(form, "execution"@), investigation.execution)
    &&& holds(form, "correlated"@)
    &&& shows_correlated(at(form, "correlated"@), investigation.correlated)
    &&& holds(form, "evidence"@)
    &&& shows_evidence(at(form, "evidence"@), investigation.evidence)
    &&& holds(form, "limits"@)
    &&& shows_limits(at(form, "limits"@), investigation.limits)
}

/// An investigation is shown with its subject, its execution, its relations, its evidence and its limits.
pub proof fn an_investigation_is_shown(investigation: Investigation)
    ensures
        shows_investigation(investigation_http::investigation_json(investigation), investigation),
{
    broadcast use members;

    reveal_strlit("subject");
    reveal_strlit("execution");
    reveal_strlit("correlated");
    reveal_strlit("evidence");
    reveal_strlit("limits");
    assert("subject"@.len() == 7);
    assert("execution"@.len() == 9);
    assert("correlated"@.len() == 10);
    assert("evidence"@.len() == 8);
    assert("limits"@.len() == 6);
    a_subject_is_shown(investigation.subject);
    an_execution_is_shown(investigation.execution);
    the_relations_are_shown(investigation.correlated);
    the_evidence_is_shown(investigation.evidence);
    the_limits_are_shown(investigation.limits);
}

/// Whether the whole milliseconds of a duration are a number of 64 bits.
pub open spec fn fits(duration: Duration) -> bool {
    time::duration_nanos(duration) as int / 1_000_000 <= u64::MAX
}

/// Whether every duration in a refusal fits.
pub open spec fn refusal_fits(refusal: BudgetRefusal) -> bool {
    &&& refusal.limit matches Magnitude::Duration(limit) ==> fits(limit)
    &&& refusal.observed matches Magnitude::Duration(observed) ==> fits(observed)
}

/// Whether every duration of an investigation fits.
pub open spec fn durations_fit(investigation: Investigation) -> bool {
    &&& fits(investigation.limits.budget.deadline)
    &&& forall|i: int, j: int|
        0 <= i < investigation.execution.run_groups@.len() && 0 <= j
            < investigation.execution.run_groups@[i].runs@.len() ==> (
        (#[trigger] investigation.execution.run_groups@[i].runs@[j]).outcome matches PartOutcome::Refused(
            refusal,
        ) ==> refusal_fits(refusal))
}

/// An investigation is answered with 200 and its form, unless one of its durations
/// does not fit; then there is no answer.
pub proof fn an_investigation_is_answered_with_its_form(
    investigation: Investigation,
    answer: Option<JsonAnswer>,
)
    requires
        call_ensures(investigation_http::answer, (&Ok(investigation),), answer),
    ensures
        answer is Some <==> durations_fit(investigation),
        answer matches Some(answer) ==> answer.status == 200 && shows_investigation(
            json::json_of(answer.body),
            investigation,
        ),
{
    an_investigation_is_shown(investigation);
    let execution = investigation.execution;
    if durations_fit(investigation) {
        assert forall|i: int| 0 <= i < execution.run_groups@.len() implies
            investigation_http::group_showable(#[trigger] execution.run_groups@[i]) by {
            assert forall|j: int| 0 <= j < execution.run_groups@[i].runs@.len() implies
                investigation_http::outcome_showable(
                #[trigger] execution.run_groups@[i].runs@[j].outcome,
            ) by {
                let run = investigation.execution.run_groups@[i].runs@[j];
            }
        }
    }
    if investigation_http::investigation_showable(investigation) {
        assert forall|i: int, j: int|
            0 <= i < investigation.execution.run_groups@.len() && 0 <= j
                < investigation.execution.run_groups@[i].runs@.len() implies (
        (#[trigger] investigation.execution.run_groups@[i].runs@[j]).outcome matches PartOutcome::Refused(
            refusal,
        ) ==> refusal_fits(refusal)) by {
            assert(investigation_http::group_showable(execution.run_groups@[i]));
            assert(investigation_http::outcome_showable(
                execution.run_groups@[i].runs@[j].outcome,
            ));
        }
    }
}

/// Whether an answer names an error with this status.
pub open spec fn names_error(answer: JsonAnswer, status: int, message: Seq<char>) -> bool {
    answer.status == status && reads(json::json_of(answer.body), "error"@, message)
}

/// What an investigation without an answer is answered: 404 where its subject is
/// not resident, named by its ids in hexadecimal or by its serial, and 500 where
/// the work went wrong.
pub proof fn a_failed_investigation_is_answered_by_its_error(
    error: FlowError,
    answer: Option<JsonAnswer>,
    words: String,
)
    requires
        call_ensures(investigation_http::answer, (&Err(error),), answer),
        error matches FlowError::SubjectUnresolved { requested } ==> call_ensures(
            investigation_http::entity_text,
            (&requested,),
            words,
        ),
    ensures
        answer matches Some(answer) && match error {
            FlowError::SubjectUnresolved { .. } => names_error(
                answer,
                404,
                "no resident record carries the requested subject ("@ + words@
                    + ") — it was never admitted, or evicted"@,
            ),
            FlowError::CursorRejected => names_error(
                answer,
                500,
                "the flow rejected an engine continuation cursor — an internal contract violation; nothing was fabricated"@,
            ),
            FlowError::EngineContract => names_error(
                answer,
                500,
                "the engine returned an answer the envelope contract cannot hold — an internal contract violation; nothing was fabricated"@,
            ),
        },
{
    broadcast use members;

}

/// A record is named in words by its ids in hexadecimal, or by its serial.
pub proof fn a_record_is_named_in_words(entity: EntityId, words: String)
    requires
        call_ensures(investigation_http::entity_text, (&entity,), words),
    ensures
        match entity {
            EntityId::Span { trace_id, span_id } => exists|trace: Seq<char>, span: Seq<char>|
                text::spells(trace, trace_id@) && text::spells(span, span_id@) && words@
                    == #[trigger] ("span "@ + trace + ":"@ + span),
            EntityId::Assigned(id) => words@ == "assigned "@ + text::decimal(id@ as nat),
        },
{
    if let EntityId::Span { trace_id, span_id } = entity {
        text::hexadecimal_spells_its_bytes(trace_id@);
        text::hexadecimal_spells_its_bytes(span_id@);
        let trace = text::hex_text(trace_id@);
        let span = text::hex_text(span_id@);
        assert(words@ == "span "@ + trace + ":"@ + span);
    }
}

/// What a request is answered that no investigation comes of: one whose declared
/// body is over the ceiling, one whose body did not arrive, and any other error.
pub proof fn a_request_without_an_investigation_is_told_why(
    content_length: Option<&str>,
    ceiling_bytes: usize,
    over: bool,
    refusal: Option<JsonAnswer>,
    timed_out: bool,
    unread: JsonAnswer,
    status: u16,
    message: &str,
    error: JsonAnswer,
)
    requires
        call_ensures(crate::otlp_http::declared_over_ceiling, (content_length, ceiling_bytes), over),
        call_ensures(investigation_http::refused_unread, (content_length, ceiling_bytes), refusal),
        call_ensures(investigation_http::read_failure, (timed_out,), unread),
        call_ensures(investigation_http::json_error, (status, message), error),
    ensures
        refusal is Some <==> over,
        refusal matches Some(answer) ==> names_error(
            answer,
            413,
            "the investigation request exceeds the "@ + text::decimal(ceiling_bytes as nat)
                + "-byte ceiling; refused before reading, non-retryable"@,
        ),
        timed_out ==> names_error(
            unread,
            408,
            "the request body did not arrive in full within the read deadline; nothing was parsed or investigated"@,
        ),
        !timed_out ==> names_error(
            unread,
            400,
            "the request body could not be read in full; nothing was parsed or investigated"@,
        ),
        names_error(error, status as int, message@),
{
    broadcast use members;

}

/// A subject is read as the record that it names, and every record can be named: a
/// span by its ids, and where no span is, an assigned one by its serial.
pub proof fn a_subject_is_read_as_what_it_names(
    value: serde_json::Value,
    parsed: Result<EntityId, String>,
    entity: EntityId,
)
    requires
        call_ensures(investigation_http::parse_entity, (&value,), parsed),
    ensures
        ({
            let form = json::json_of(value);
            &&& parsed matches Ok(read) ==> names(form, read) && (read is Span <==> holds(
                form,
                "span"@,
            ))
            &&& names(form, entity) && entity.valid() && (entity is Assigned ==> !holds(
                form,
                "span"@,
            )) ==> parsed == Ok::<EntityId, String>(entity)
        }),
{
    let form = json::json_of(value);
    if let Ok(read) = parsed {
        match read {
            EntityId::Span { trace_id, span_id } => {
                let span = at(form, "span"@);
                let trace_text = at(span, "trace_id"@)->String_0;
                let span_text = at(span, "span_id"@)->String_0;
                text::writing_hex_undoes_reading(trace_text, "trace_id"@, 16);
                text::writing_hex_undoes_reading(span_text, "span_id"@, 8);
                text::hexadecimal_spells_its_bytes(trace_id@);
                text::hexadecimal_spells_its_bytes(span_id@);
            },
            EntityId::Assigned(_) => {},
        }
    }
    if names(form, entity) && entity.valid() && (entity is Assigned ==> !holds(form, "span"@)) {
        match entity {
            EntityId::Span { trace_id, span_id } => {
                let span = at(form, "span"@);
                let trace_text = at(span, "trace_id"@)->String_0;
                let span_text = at(span, "span_id"@)->String_0;
                model::trace_id_is_its_bytes(trace_id, trace_id);
                model::span_id_is_its_bytes(span_id, span_id);
                text::only_one_text_spells(trace_text, trace_id@, "trace_id"@);
                text::only_one_text_spells(span_text, span_id@, "span_id"@);
            },
            EntityId::Assigned(_) => {},
        }
        investigation_http::entity_is_its_numbers(parsed->Ok_0, entity);
    }
}

/// Whether an object has a member of this name that is a text.
pub open spec fn has_text(form: Json, name: Seq<char>) -> bool {
    json::member(form, name) matches Some(Json::String(_))
}

/// A subject that names no record is told what it lacks: a span its trace id, then
/// its span id, then what is wrong with their digits; an assigned one a serial
/// that starts at 1.
pub proof fn a_subject_is_told_what_it_lacks(
    value: serde_json::Value,
    parsed: Result<EntityId, String>,
    trace: &str,
    trace_read: Result<Vec<u8>, String>,
    span: &str,
    span_read: Result<Vec<u8>, String>,
)
    requires
        call_ensures(investigation_http::parse_entity, (&value,), parsed),
        call_ensures(text::parse_hex, (trace, "trace_id", 16usize), trace_read),
        call_ensures(text::parse_hex, (span, "span_id", 8usize), span_read),
    ensures
        ({
            let form = json::json_of(value);
            let named = at(form, "span"@);
            if holds(form, "span"@) {
                &&& !has_text(named, "trace_id"@) ==> (parsed matches Err(error) && error@
                    == "a span subject needs trace_id (32 lowercase hex)"@)
                &&& has_text(named, "trace_id"@) && !has_text(named, "span_id"@) ==> (
                parsed matches Err(error) && error@
                    == "a span subject needs span_id (16 lowercase hex)"@)
                &&& reads(named, "trace_id"@, trace@) && reads(named, "span_id"@, span@) ==> {
                    &&& parsed is Ok <==> trace_read is Ok && span_read is Ok
                    &&& trace_read is Err ==> (parsed matches Err(error) && error@
                        == trace_read->Err_0@)
                    &&& trace_read is Ok && span_read is Err ==> (parsed matches Err(error)
                        && error@ == span_read->Err_0@)
                }
            } else if json::member(form, "assigned"@) matches Some(Json::Integer(serial)) && 0
                <= serial <= u64::MAX {
                &&& at(form, "assigned"@)->Integer_0 == 0 ==> (parsed matches Err(error) && error@
                    == "an assigned serial starts at 1"@)
                &&& at(form, "assigned"@)->Integer_0 > 0 ==> parsed is Ok
            } else {
                parsed matches Err(error) && error@
                    == "an entity is {\"span\": …} or {\"assigned\": <serial>}"@
            }
        }),
{
}

/// A request asks for the record under `root_span`; without one, or where its body
/// is not JSON, it is told so.
pub proof fn a_request_asks_for_its_root_span(
    request: serde_json::Value,
    subject: Result<EntityId, String>,
    root: serde_json::Value,
    entity: Result<EntityId, String>,
    payload: &[u8],
    parsed: Result<EntityId, String>,
)
    requires
        call_ensures(investigation_http::requested_subject, (&request,), subject),
        call_ensures(investigation_http::parse_entity, (&root,), entity),
        call_ensures(investigation_http::parse_subject, (payload,), parsed),
    ensures
        ({
            let form = json::json_of(request);
            &&& json::member(form, "root_span"@) == Some(json::json_of(root)) ==> match (
                subject,
                entity,
            ) {
                (Ok(asked), Ok(named)) => asked == named,
                (Err(said), Err(error)) => said@ == error@,
                _ => false,
            }
            &&& !holds(form, "root_span"@) ==> (subject matches Err(error) && error@
                == "the request must name a root_span"@)
            &&& json::parsed_json(payload@) == Some(form) ==> match (parsed, subject) {
                (Ok(asked), Ok(named)) => asked == named,
                (Err(said), Err(error)) => said@ == error@,
                _ => false,
            }
            &&& json::parsed_json(payload@) is None ==> (parsed matches Err(error) && error@
                == "the request body is not a JSON object"@)
        }),
{
    if let Ok(a) = subject {
        if let Ok(b) = entity {
            investigation_http::entity_is_its_numbers(a, b);
        }
        if let Ok(b) = parsed {
            investigation_http::entity_is_its_numbers(b, a);
        }
    }
}

/// An investigation is asked for with the page budget of 30 seconds, 1,000
/// results, 100,000 examinations and 4 MiB of memory, and as many bytes as a
/// payload may hold; a body that asks for none is answered with 400.
pub proof fn an_investigation_is_asked_for_on_its_budget(
    payload: &[u8],
    ceiling_bytes: usize,
    asked: Result<TraceInvestigationRequest, JsonAnswer>,
    parsed: Result<EntityId, String>,
    chain: ChainBudget,
)
    requires
        call_ensures(investigation_http::requested, (payload, ceiling_bytes), asked),
        call_ensures(investigation_http::parse_subject, (payload,), parsed),
        call_ensures(investigation::admitted_chain, (), chain),
    ensures
        asked is Ok <==> parsed is Ok,
        asked matches Ok(request) ==> {
            &&& request.root_span == parsed->Ok_0
            &&& time::duration_nanos(request.budget.deadline) == 30 * 1_000_000_000
            &&& request.budget.max_results == 1_000
            &&& request.budget.max_bytes == ceiling_bytes
            &&& request.budget.max_scan == 100_000
            &&& request.budget.max_aggregation_memory == 4 * 1024 * 1024
        },
        asked matches Err(answer) ==> names_error(answer, 400, parsed->Err_0@),
        chain.max_total_pages == 16,
        chain.max_total_entities == 10_000,
        chain.max_identity_examinations == 100_000,
{
    broadcast use members;

    if let Ok(request) = asked {
        if let Ok(subject) = parsed {
            investigation_http::entity_is_its_numbers(request.root_span, subject);
        }
    }
}

}
