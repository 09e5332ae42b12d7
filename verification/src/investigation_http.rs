//! Investigations over HTTP: how a request names its subject, and how the answer
//! is written as JSON.

use crate::codec;
use crate::engine::SignalKind;
use crate::investigation;
use crate::investigation::{
    ChainBasis, ChainSpend, Correlated, EffectiveRoot, EffectiveSubject, Evidence, EvidenceFact,
    EvictionState, FlowCoverageEntry, FlowError, FlowExecution, Investigation, InvestigationBudget,
    Limits, LogEvidence, PartName, PointEvidence, Relation, RelationType, ResolutionNote, RunFacts,
    RunGroup, SignalRef, SpanEvidence, StrategyVersion, Subject, TimeWindow,
    TraceInvestigationRequest,
};
use crate::json;
use crate::json::{Json, Members};
use crate::model;
use crate::model::{
    AnyValue, AssignedId, EntityId, MetricNumber, MetricPoint, Serial, SpanId, TraceId,
};
use crate::otlp_http;
use crate::result::{
    BudgetRefusal, CoverageEntry, Dimension, Magnitude, PartOutcome, Truncation, TruncationPoint,
};
use crate::text;
use crate::time;
use std::time::Duration;
use vstd::prelude::*;

verus! {

/// The endpoint of trace investigations.
pub const INVESTIGATION_TRACES_PATH: &'static str = "/v1/investigations/traces";

/// A record's identity, by its numbers.
pub ghost enum EntityModel {
    /// A span's wire identity.
    Span {
        /// The bytes of the trace id.
        trace_id: Seq<u8>,
        /// The bytes of the span id.
        span_id: Seq<u8>,
    },
    /// An identity assigned at admission.
    Assigned(u64),
}

/// A record's identity, by its numbers.
pub open spec fn entity_model(entity: EntityId) -> EntityModel {
    match entity {
        EntityId::Span { trace_id, span_id } => EntityModel::Span {
            trace_id: trace_id@,
            span_id: span_id@,
        },
        EntityId::Assigned(id) => EntityModel::Assigned(id@),
    }
}

/// Two identities are one exactly when their numbers agree.
pub proof fn entity_is_its_numbers(a: EntityId, b: EntityId)
    ensures
        entity_model(a) == entity_model(b) <==> a == b,
{
    match (a, b) {
        (
            EntityId::Span { trace_id: trace_a, span_id: span_a },
            EntityId::Span { trace_id: trace_b, span_id: span_b },
        ) => {
            model::trace_id_is_its_bytes(trace_a, trace_b);
            model::span_id_is_its_bytes(span_a, span_b);
        },
        (EntityId::Assigned(id_a), EntityId::Assigned(id_b)) => {
            model::assigned_id_is_its_serial(id_a, id_b);
        },
        _ => {},
    }
}

/// The text of a member that is a string.
pub open spec fn member_text(value: Json, name: Seq<char>) -> Option<Seq<char>> {
    match json::member(value, name) {
        Some(found) => json::text_in(found),
        None => None,
    }
}

/// The span that a JSON value names, or what is said of it.
pub open spec fn span_in(span: Json) -> Result<EntityModel, Seq<char>> {
    match member_text(span, "trace_id"@) {
        None => Err("a span subject needs trace_id (32 lowercase hex)"@),
        Some(trace_text) => match member_text(span, "span_id"@) {
            None => Err("a span subject needs span_id (16 lowercase hex)"@),
            Some(span_text) => match text::hex_in(trace_text, "trace_id"@, 16) {
                Err(error) => Err(error),
                Ok(trace_id) => match text::hex_in(span_text, "span_id"@, 8) {
                    Err(error) => Err(error),
                    Ok(span_id) => Ok(EntityModel::Span { trace_id, span_id }),
                },
            },
        },
    }
}

/// The record that a JSON value names, or what is said of it.
pub open spec fn entity_in(value: Json) -> Result<EntityModel, Seq<char>> {
    match json::member(value, "span"@) {
        Some(span) => span_in(span),
        None => match json::member(value, "assigned"@) {
            Some(assigned) => match json::number_in(assigned) {
                Some(serial) => if serial == 0 {
                    Err("an assigned serial starts at 1"@)
                } else {
                    Ok(EntityModel::Assigned(serial))
                },
                None => Err("an entity is {\"span\": …} or {\"assigned\": <serial>}"@),
            },
            None => Err("an entity is {\"span\": …} or {\"assigned\": <serial>}"@),
        },
    }
}

/// Whether a result is what a reading says.
pub open spec fn reads(parsed: Result<EntityId, String>, read: Result<EntityModel, Seq<char>>) -> bool {
    match parsed {
        Ok(entity) => read == Ok::<EntityModel, Seq<char>>(entity_model(entity)),
        Err(error) => read == Err::<EntityModel, Seq<char>>(error@),
    }
}

fn text_member<'a>(value: &'a serde_json::Value, name: &str) -> (text: Option<&'a str>)
    ensures
        match text {
            Some(text) => member_text(json::json_of(*value), name@) == Some(text@),
            None => member_text(json::json_of(*value), name@) is None,
        },
{
    match json::get(value, name) {
        Some(found) => json::as_str(found),
        None => None,
    }
}

fn parse_span(span: &serde_json::Value) -> (parsed: Result<EntityId, String>)
    ensures
        reads(parsed, span_in(json::json_of(*span))),
{
    let trace_text = match text_member(span, "trace_id") {
        Some(text) => text,
        None => {
            return Err("a span subject needs trace_id (32 lowercase hex)".to_owned());
        },
    };
    let span_text = match text_member(span, "span_id") {
        Some(text) => text,
        None => {
            return Err("a span subject needs span_id (16 lowercase hex)".to_owned());
        },
    };
    let trace_bytes = match text::parse_hex(trace_text, "trace_id", 16) {
        Ok(bytes) => bytes,
        Err(error) => {
            return Err(error);
        },
    };
    let span_bytes = match text::parse_hex(span_text, "span_id", 8) {
        Ok(bytes) => bytes,
        Err(error) => {
            return Err(error);
        },
    };
    let trace_id = TraceId::from_bytes(codec::sixteen_at(trace_bytes.as_slice(), 0));
    let span_id = SpanId::from_bytes(codec::eight_at(span_bytes.as_slice(), 0));
    assert(trace_id@ =~= trace_bytes@);
    assert(span_id@ =~= span_bytes@);
    Ok(EntityId::Span { trace_id, span_id })
}

/// The record that a JSON value names: a span by its two ids, or an assigned
/// serial.
pub fn parse_entity(value: &serde_json::Value) -> (parsed: Result<EntityId, String>)
    ensures
        reads(parsed, entity_in(json::json_of(*value))),
{
    match json::get(value, "span") {
        Some(span) => {
            return parse_span(span);
        },
        None => {},
    }
    match json::get(value, "assigned") {
        Some(assigned) => match json::as_u64(assigned) {
            Some(number) => {
                return match Serial::new(number) {
                    Some(serial) => Ok(EntityId::Assigned(AssignedId::from_serial(serial))),
                    None => Err("an assigned serial starts at 1".to_owned()),
                };
            },
            None => {},
        },
        None => {},
    }
    Err("an entity is {\"span\": …} or {\"assigned\": <serial>}".to_owned())
}

/// The record that a request names, or what is said of it.
pub open spec fn subject_in(request: Json) -> Result<EntityModel, Seq<char>> {
    match json::member(request, "root_span"@) {
        Some(root) => entity_in(root),
        None => Err("the request must name a root_span"@),
    }
}

/// The record that a request names.
pub fn requested_subject(request: &serde_json::Value) -> (parsed: Result<EntityId, String>)
    ensures
        reads(parsed, subject_in(json::json_of(*request))),
{
    match json::get(request, "root_span") {
        Some(root) => parse_entity(root),
        None => Err("the request must name a root_span".to_owned()),
    }
}

/// The record that a request's body names, or what is said of it.
pub open spec fn subject_of(payload: Seq<u8>) -> Result<EntityModel, Seq<char>> {
    match json::parsed_json(payload) {
        Some(request) => subject_in(request),
        None => Err("the request body is not a JSON object"@),
    }
}

/// The record that a request's body names.
pub fn parse_subject(payload: &[u8]) -> (parsed: Result<EntityId, String>)
    ensures
        reads(parsed, subject_of(payload@)),
{
    match json::parse(payload) {
        Some(request) => requested_subject(&request),
        None => Err("the request body is not a JSON object".to_owned()),
    }
}

/// Bytes as a string of hexadecimal digits.
pub open spec fn hex_json(bytes: Seq<u8>) -> Json {
    Json::String(text::hex_text(bytes))
}

fn render_hex(bytes: &[u8]) -> (value: serde_json::Value)
    ensures
        json::json_of(value) == hex_json(bytes@),
{
    json::string(text::hex(bytes).as_str())
}

fn render_trace_id(trace_id: TraceId) -> (value: serde_json::Value)
    ensures
        json::json_of(value) == hex_json(trace_id@),
{
    render_hex(trace_id.as_bytes().as_slice())
}

fn render_span_id(span_id: SpanId) -> (value: serde_json::Value)
    ensures
        json::json_of(value) == hex_json(span_id@),
{
    render_hex(span_id.as_bytes().as_slice())
}

/// A record's identity, as JSON.
pub open spec fn entity_json(entity: EntityId) -> Json {
    match entity {
        EntityId::Span { trace_id, span_id } => json::object_of(
            json::none().push(("span"@, span_json(trace_id, span_id))),
        ),
        EntityId::Assigned(id) => json::object_of(
            json::none().push(("assigned"@, Json::Integer(id@ as int))),
        ),
    }
}

/// A span's identity, as JSON.
pub open spec fn span_json(trace_id: TraceId, span_id: SpanId) -> Json {
    json::object_of(
        json::none().push(("trace_id"@, hex_json(trace_id@))).push(
            ("span_id"@, hex_json(span_id@)),
        ),
    )
}

/// A record's identity, as JSON.
pub fn render_entity(entity: &EntityId) -> (value: serde_json::Value)
    ensures
        json::json_of(value) == entity_json(*entity),
{
    match entity {
        EntityId::Span { trace_id, span_id } => {
            let ids = Members::new()
                .with("trace_id", render_trace_id(*trace_id))
                .with("span_id", render_span_id(*span_id));
            Members::new().with("span", ids.object()).object()
        },
        EntityId::Assigned(id) => Members::new()
            .with("assigned", json::unsigned(id.serial().get()))
            .object(),
    }
}

proof fn a_member_is_found(pairs: Seq<(Seq<char>, Json)>, i: int)
    requires
        0 <= i < pairs.len(),
        forall|j: int| i < j < pairs.len() ==> (#[trigger] pairs[j]).0 != pairs[i].0,
    ensures
        json::member(json::object_of(pairs), pairs[i].0) == Some(pairs[i].1),
    decreases pairs.len(),
{
    if i < pairs.len() - 1 {
        assert(pairs.drop_last()[i] == pairs[i]);
        assert forall|j: int| i < j < pairs.len() - 1 implies (#[trigger] pairs.drop_last()[j]).0
            != pairs[i].0 by {
            assert(pairs[j].0 != pairs[i].0);
        }
        a_member_is_found(pairs.drop_last(), i);
        assert(pairs.last() == pairs[pairs.len() - 1]);
    }
}

/// Reading an identity gives back the one that was written.
pub proof fn reading_an_entity_undoes_writing(entity: EntityId)
    requires
        entity.valid(),
    ensures
        entity_in(entity_json(entity)) == Ok::<EntityModel, Seq<char>>(entity_model(entity)),
{
    reveal_strlit("span");
    reveal_strlit("assigned");
    reveal_strlit("trace_id");
    reveal_strlit("span_id");
    match entity {
        EntityId::Span { trace_id, span_id } => {
            let ids = json::none().push(("trace_id"@, hex_json(trace_id@))).push(
                ("span_id"@, hex_json(span_id@)),
            );
            let members = json::none().push(("span"@, json::object_of(ids)));
            a_member_is_found(members, 0);
            a_member_is_found(ids, 0);
            a_member_is_found(ids, 1);
            model::trace_id_is_its_bytes(trace_id, trace_id);
            model::span_id_is_its_bytes(span_id, span_id);
            text::reading_hex_undoes_writing(trace_id@, "trace_id"@);
            text::reading_hex_undoes_writing(span_id@, "span_id"@);
        },
        EntityId::Assigned(id) => {
            let members = json::none().push(("assigned"@, Json::Integer(id@ as int)));
            a_member_is_found(members, 0);
            assert(json::members_of(members.drop_last()) =~= Map::<Seq<char>, Json>::empty());
            assert("span"@.len() != "assigned"@.len());
            assert(json::member(entity_json(entity), "span"@) is None);
            assert(json::member(entity_json(entity), "assigned"@) == Some(
                Json::Integer(id@ as int),
            ));
        },
    }
}

/// What has a fixed form as JSON.
pub trait Render {
    /// The form.
    spec fn json(&self) -> Json;

    /// The form.
    fn render(&self) -> (value: serde_json::Value)
        ensures
            json::json_of(value) == self.json(),
    ;
}

/// The forms of several things, in order.
pub open spec fn all_json<T: Render>(items: Seq<T>) -> Json {
    Json::Array(Seq::new(items.len(), |i: int| items[i].json()))
}

/// The forms of several things, in order, as an array.
pub fn render_all<T: Render>(items: &Vec<T>) -> (value: serde_json::Value)
    ensures
        json::json_of(value) == all_json(items@),
{
    let mut values: Vec<serde_json::Value> = Vec::new();
    let mut i: usize = 0;
    while i < items.len()
        invariant
            i <= items@.len(),
            values@.len() == i,
            forall|j: int| 0 <= j < i ==> json::json_of(#[trigger] values@[j]) == items@[j].json(),
        decreases items@.len() - i,
    {
        values.push(items[i].render());
        i += 1;
    }
    assert(json::jsons_of(values@) =~= Seq::new(items@.len(), |i: int| items@[i].json()));
    json::array(values)
}

/// The form of a thing, or `null` where there is none.
pub open spec fn optional_json<T: Render>(item: Option<T>) -> Json {
    match item {
        Some(item) => item.json(),
        None => Json::Null,
    }
}

/// The form of a thing, or `null` where there is none.
pub fn render_optional<T: Render>(item: &Option<T>) -> (value: serde_json::Value)
    ensures
        json::json_of(value) == optional_json(*item),
{
    match item {
        Some(item) => item.render(),
        None => json::null(),
    }
}

/// An object that holds nothing but its kind.
pub open spec fn kind_json(kind: Seq<char>) -> Seq<(Seq<char>, Json)> {
    json::none().push(("kind"@, Json::String(kind)))
}

fn kind(name: &str) -> (members: Members)
    ensures
        members@ == kind_json(name@),
{
    Members::new().with("kind", json::string(name))
}

/// A number, as JSON.
pub open spec fn count_json(count: u64) -> Json {
    Json::Integer(count as int)
}

impl Render for u64 {
    open spec fn json(&self) -> Json {
        count_json(*self)
    }

    fn render(&self) -> (value: serde_json::Value) {
        json::unsigned(*self)
    }
}

impl Render for EntityId {
    open spec fn json(&self) -> Json {
        entity_json(*self)
    }

    fn render(&self) -> (value: serde_json::Value) {
        render_entity(self)
    }
}

impl Render for TraceId {
    open spec fn json(&self) -> Json {
        hex_json(self@)
    }

    fn render(&self) -> (value: serde_json::Value) {
        render_trace_id(*self)
    }
}

impl Render for SpanId {
    open spec fn json(&self) -> Json {
        hex_json(self@)
    }

    fn render(&self) -> (value: serde_json::Value) {
        render_span_id(*self)
    }
}

impl Render for EffectiveRoot {
    open spec fn json(&self) -> Json {
        json::object_of(
            json::none().push(("entity"@, entity_json(self.entity))).push(
                ("name"@, Json::String(self.name@)),
            ).push(("trace_id"@, hex_json(self.trace_id@))).push(
                ("span_id"@, hex_json(self.span_id@)),
            ),
        )
    }

    fn render(&self) -> (value: serde_json::Value) {
        Members::new()
            .with("entity", render_entity(&self.entity))
            .with("name", json::string(self.name.as_str()))
            .with("trace_id", render_trace_id(self.trace_id))
            .with("span_id", render_span_id(self.span_id))
            .object()
    }
}

impl Render for ResolutionNote {
    open spec fn json(&self) -> Json {
        json::object_of(
            match *self {
                ResolutionNote::RequestedSpanIsRoot => kind_json("requested_span_is_root"@),
                ResolutionNote::TraceRootedAt { entity, name, span_id } => kind_json(
                    "trace_rooted_at"@,
                ).push(("entity"@, entity_json(entity))).push(("name"@, Json::String(name@))).push(
                    ("span_id"@, hex_json(span_id@)),
                ),
                ResolutionNote::NoParentlessSpanResident => kind_json(
                    "no_parentless_span_resident"@,
                ),
                ResolutionNote::RootHasNoValidTraceIdentity => kind_json(
                    "root_has_no_valid_trace_identity"@,
                ),
            },
        )
    }

    fn render(&self) -> (value: serde_json::Value) {
        match self {
            ResolutionNote::RequestedSpanIsRoot => kind("requested_span_is_root").object(),
            ResolutionNote::TraceRootedAt { entity, name, span_id } => kind("trace_rooted_at")
                .with("entity", render_entity(entity))
                .with("name", json::string(name.as_str()))
                .with("span_id", render_span_id(*span_id))
                .object(),
            ResolutionNote::NoParentlessSpanResident => {
                kind("no_parentless_span_resident").object()
            },
            ResolutionNote::RootHasNoValidTraceIdentity => {
                kind("root_has_no_valid_trace_identity").object()
            },
        }
    }
}

impl Render for EffectiveSubject {
    open spec fn json(&self) -> Json {
        json::object_of(
            json::none().push(("root"@, self.root.json())).push(
                ("notes"@, all_json(self.notes@)),
            ),
        )
    }

    fn render(&self) -> (value: serde_json::Value) {
        Members::new()
            .with("root", self.root.render())
            .with("notes", render_all(&self.notes))
            .object()
    }
}

impl Render for Subject {
    open spec fn json(&self) -> Json {
        json::object_of(
            json::none().push(
                (
                    "requested"@,
                    json::object_of(
                        json::none().push(("root_span"@, entity_json(self.requested.root_span))),
                    ),
                ),
            ).push(("effective"@, self.effective.json())),
        )
    }

    fn render(&self) -> (value: serde_json::Value) {
        let requested = Members::new().with("root_span", render_entity(&self.requested.root_span));
        Members::new()
            .with("requested", requested.object())
            .with("effective", self.effective.render())
            .object()
    }
}

/// What an answer says was asked for can be asked again: it is a request for the
/// same record.
pub proof fn an_answer_says_what_was_asked(subject: Subject)
    requires
        subject.requested.root_span.valid(),
    ensures
        json::member(subject.json(), "requested"@) matches Some(request) && subject_in(request)
            == Ok::<EntityModel, Seq<char>>(entity_model(subject.requested.root_span)),
{
    reveal_strlit("requested");
    reveal_strlit("effective");
    let entity = subject.requested.root_span;
    let request = json::none().push(("root_span"@, entity_json(entity)));
    let members = json::none().push(("requested"@, json::object_of(request))).push(
        ("effective"@, subject.effective.json()),
    );
    assert("requested"@[0] != "effective"@[0]);
    a_member_is_found(members, 0);
    a_member_is_found(request, 0);
    reading_an_entity_undoes_writing(entity);
}

/// A dimension's name.
pub open spec fn dimension_name(dimension: Dimension) -> Seq<char> {
    match dimension {
        Dimension::Deadline => "deadline"@,
        Dimension::Results => "results"@,
        Dimension::Bytes => "bytes"@,
        Dimension::Scan => "scan"@,
        Dimension::AggregationMemory => "aggregation_memory"@,
    }
}

impl Render for Dimension {
    open spec fn json(&self) -> Json {
        Json::String(dimension_name(*self))
    }

    fn render(&self) -> (value: serde_json::Value) {
        json::string(
            match self {
                Dimension::Deadline => "deadline",
                Dimension::Results => "results",
                Dimension::Bytes => "bytes",
                Dimension::Scan => "scan",
                Dimension::AggregationMemory => "aggregation_memory",
            },
        )
    }
}

/// Bytes, as an object that holds them in hexadecimal.
pub open spec fn bytes_json(bytes: Seq<u8>) -> Json {
    json::object_of(json::none().push(("hex"@, hex_json(bytes))))
}

fn render_bytes(bytes: &Vec<u8>) -> (value: serde_json::Value)
    ensures
        json::json_of(value) == bytes_json(bytes@),
{
    Members::new().with("hex", render_hex(bytes.as_slice())).object()
}

impl Render for TruncationPoint {
    open spec fn json(&self) -> Json {
        json::object_of(
            match *self {
                TruncationPoint::Cursor(bytes) => json::none().push(
                    ("cursor"@, bytes_json(bytes@)),
                ),
                TruncationPoint::LastExamined(entity) => json::none().push(
                    ("last_examined"@, entity_json(entity)),
                ),
            },
        )
    }

    fn render(&self) -> (value: serde_json::Value) {
        match self {
            TruncationPoint::Cursor(bytes) => Members::new()
                .with("cursor", render_bytes(bytes))
                .object(),
            TruncationPoint::LastExamined(entity) => Members::new()
                .with("last_examined", render_entity(entity))
                .object(),
        }
    }
}

impl Render for Truncation {
    open spec fn json(&self) -> Json {
        json::object_of(
            json::none().push(("dimension"@, self.dimension.json())).push(
                ("position"@, self.position.json()),
            ).push(("omitted"@, count_json(self.omitted))),
        )
    }

    fn render(&self) -> (value: serde_json::Value) {
        Members::new()
            .with("dimension", self.dimension.render())
            .with("position", self.position.render())
            .with("omitted", json::unsigned(self.omitted))
            .object()
    }
}

impl Render for CoverageEntry {
    open spec fn json(&self) -> Json {
        json::object_of(
            match *self {
                CoverageEntry::EvictionGap { after, before } => kind_json("eviction_gap"@).push(
                    ("after"@, entity_json(after)),
                ).push(("before"@, entity_json(before))),
                CoverageEntry::SnapshotBoundary { admission } => kind_json(
                    "snapshot_boundary"@,
                ).push(("admission_time_unix_nano"@, count_json(admission.nanos()))).push(
                    ("entity"@, entity_json(admission.entity_id())),
                ),
                CoverageEntry::UncountedTail { after, dimension } => kind_json(
                    "uncounted_tail"@,
                ).push(("after"@, entity_json(after))).push(("dimension"@, dimension.json())),
                CoverageEntry::DriverStall { after } => kind_json("driver_stall"@).push(
                    ("after"@, entity_json(after)),
                ),
            },
        )
    }

    fn render(&self) -> (value: serde_json::Value) {
        match self {
            CoverageEntry::EvictionGap { after, before } => kind("eviction_gap")
                .with("after", render_entity(after))
                .with("before", render_entity(before))
                .object(),
            CoverageEntry::SnapshotBoundary { admission } => kind("snapshot_boundary")
                .with(
                    "admission_time_unix_nano",
                    json::unsigned(admission.admitted_at().as_unix_nano()),
                )
                .with("entity", render_entity(&admission.entity()))
                .object(),
            CoverageEntry::UncountedTail { after, dimension } => kind("uncounted_tail")
                .with("after", render_entity(after))
                .with("dimension", dimension.render())
                .object(),
            CoverageEntry::DriverStall { after } => kind("driver_stall")
                .with("after", render_entity(after))
                .object(),
        }
    }
}

impl Render for TimeWindow {
    open spec fn json(&self) -> Json {
        json::object_of(
            json::none().push(("from"@, count_json(self.from))).push(
                ("to"@, count_json(self.to)),
            ),
        )
    }

    fn render(&self) -> (value: serde_json::Value) {
        Members::new()
            .with("from", json::unsigned(self.from))
            .with("to", json::unsigned(self.to))
            .object()
    }
}

impl Render for PartName {
    open spec fn json(&self) -> Json {
        Json::String(
            match *self {
                PartName::Spans => "spans"@,
                PartName::RelatedLogs => "related_logs"@,
                PartName::SurroundingMetrics => "surrounding_metrics"@,
            },
        )
    }

    fn render(&self) -> (value: serde_json::Value) {
        json::string(
            match self {
                PartName::Spans => "spans",
                PartName::RelatedLogs => "related_logs",
                PartName::SurroundingMetrics => "surrounding_metrics",
            },
        )
    }
}

impl Render for FlowCoverageEntry {
    open spec fn json(&self) -> Json {
        json::object_of(
            match *self {
                FlowCoverageEntry::MetricWindow { asked, resident } => kind_json(
                    "metric_window"@,
                ).push(("asked"@, asked.json())).push(("resident"@, resident.json())),
                FlowCoverageEntry::AdmissionAnomalies { total } => kind_json(
                    "admission_anomalies"@,
                ).push(("total"@, count_json(total))),
                FlowCoverageEntry::ResidencyHole { part, count } => kind_json(
                    "residency_hole"@,
                ).push(("part"@, part.json())).push(("count"@, count_json(count))),
            },
        )
    }

    fn render(&self) -> (value: serde_json::Value) {
        match self {
            FlowCoverageEntry::MetricWindow { asked, resident } => kind("metric_window")
                .with("asked", asked.render())
                .with("resident", resident.render())
                .object(),
            FlowCoverageEntry::AdmissionAnomalies { total } => kind("admission_anomalies")
                .with("total", json::unsigned(*total))
                .object(),
            FlowCoverageEntry::ResidencyHole { part, count } => kind("residency_hole")
                .with("part", part.render())
                .with("count", json::unsigned(*count))
                .object(),
        }
    }
}

/// The whole milliseconds of a duration.
pub open spec fn millis(duration: Duration) -> nat {
    time::duration_nanos(duration) / 1_000_000
}

/// Whether a duration can be shown: its milliseconds are a number of 64 bits.
pub open spec fn showable(duration: Duration) -> bool {
    millis(duration) <= u64::MAX
}

fn shown_millis(duration: &Duration) -> (shown: Option<u64>)
    ensures
        shown == if showable(*duration) {
            Some(millis(*duration) as u64)
        } else {
            None
        },
{
    let millis: u128 = duration.as_millis();
    if millis <= u64::MAX as u128 {
        Some(millis as u64)
    } else {
        None
    }
}

/// Whether a result is the form of a thing that can be shown, or nothing where
/// it cannot.
pub open spec fn shows(value: Option<serde_json::Value>, showable: bool, form: Json) -> bool {
    match value {
        Some(value) => showable && json::json_of(value) == form,
        None => !showable,
    }
}

/// Whether a magnitude can be shown.
pub open spec fn magnitude_showable(magnitude: Magnitude) -> bool {
    magnitude matches Magnitude::Duration(duration) ==> showable(duration)
}

/// A magnitude, as JSON.
pub open spec fn magnitude_json(magnitude: Magnitude) -> Json {
    json::object_of(
        match magnitude {
            Magnitude::Duration(duration) => json::none().push(
                ("duration_ms"@, Json::Integer(millis(duration) as int)),
            ),
            Magnitude::Units(units) => json::none().push(("units"@, count_json(units))),
            Magnitude::Bytes(bytes) => json::none().push(("bytes"@, count_json(bytes))),
        },
    )
}

/// A magnitude, as JSON, where it can be shown.
pub fn render_magnitude(magnitude: &Magnitude) -> (value: Option<serde_json::Value>)
    ensures
        shows(value, magnitude_showable(*magnitude), magnitude_json(*magnitude)),
{
    match magnitude {
        Magnitude::Duration(duration) => match shown_millis(duration) {
            Some(millis) => Some(
                Members::new().with("duration_ms", json::unsigned(millis)).object(),
            ),
            None => None,
        },
        Magnitude::Units(units) => Some(
            Members::new().with("units", json::unsigned(*units)).object(),
        ),
        Magnitude::Bytes(bytes) => Some(
            Members::new().with("bytes", json::unsigned(*bytes)).object(),
        ),
    }
}

/// Whether a refusal can be shown.
pub open spec fn refusal_showable(refusal: BudgetRefusal) -> bool {
    magnitude_showable(refusal.limit) && magnitude_showable(refusal.observed)
}

/// A refusal, as JSON.
pub open spec fn refusal_json(refusal: BudgetRefusal) -> Json {
    json::object_of(
        json::none().push(("dimension"@, refusal.dimension.json())).push(
            ("limit"@, magnitude_json(refusal.limit)),
        ).push(("observed"@, magnitude_json(refusal.observed))),
    )
}

/// A refusal, as JSON, where it can be shown.
pub fn render_refusal(refusal: &BudgetRefusal) -> (value: Option<serde_json::Value>)
    ensures
        shows(value, refusal_showable(*refusal), refusal_json(*refusal)),
{
    match (render_magnitude(&refusal.limit), render_magnitude(&refusal.observed)) {
        (Some(limit), Some(observed)) => Some(
            Members::new()
                .with("dimension", refusal.dimension.render())
                .with("limit", limit)
                .with("observed", observed)
                .object(),
        ),
        _ => None,
    }
}

/// Whether an outcome can be shown.
pub open spec fn outcome_showable(outcome: PartOutcome) -> bool {
    outcome matches PartOutcome::Refused(refusal) ==> refusal_showable(refusal)
}

/// An outcome, as JSON.
pub open spec fn outcome_json(outcome: PartOutcome) -> Json {
    json::object_of(
        match outcome {
            PartOutcome::Complete => kind_json("complete"@),
            PartOutcome::Degraded { truncation } => kind_json("degraded"@).push(
                ("truncation"@, truncation.json()),
            ),
            PartOutcome::Refused(refusal) => kind_json("refused"@).push(
                ("refusal"@, refusal_json(refusal)),
            ),
            PartOutcome::Stalled => kind_json("stalled"@),
        },
    )
}

/// An outcome, as JSON, where it can be shown.
pub fn render_outcome(outcome: &PartOutcome) -> (value: Option<serde_json::Value>)
    ensures
        shows(value, outcome_showable(*outcome), outcome_json(*outcome)),
{
    match outcome {
        PartOutcome::Complete => Some(kind("complete").object()),
        PartOutcome::Degraded { truncation } => Some(
            kind("degraded").with("truncation", truncation.render()).object(),
        ),
        PartOutcome::Refused(refusal) => match render_refusal(refusal) {
            Some(refusal) => Some(kind("refused").with("refusal", refusal).object()),
            None => None,
        },
        PartOutcome::Stalled => Some(kind("stalled").object()),
    }
}

/// One run, as JSON.
pub open spec fn run_json(run: RunFacts) -> Json {
    json::object_of(
        json::none().push(("outcome"@, outcome_json(run.outcome))).push(
            ("coverage"@, all_json(run.coverage@)),
        ).push(
            (
                "next_cursor"@,
                match run.next_cursor {
                    Some(cursor) => bytes_json(cursor@),
                    None => Json::Null,
                },
            ),
        ),
    )
}

/// One run, as JSON, where it can be shown.
pub fn render_run(run: &RunFacts) -> (value: Option<serde_json::Value>)
    ensures
        shows(value, outcome_showable(run.outcome), run_json(*run)),
{
    let outcome = match render_outcome(&run.outcome) {
        Some(outcome) => outcome,
        None => {
            return None;
        },
    };
    let next_cursor = match &run.next_cursor {
        Some(cursor) => render_bytes(cursor),
        None => json::null(),
    };
    Some(
        Members::new()
            .with("outcome", outcome)
            .with("coverage", render_all(&run.coverage))
            .with("next_cursor", next_cursor)
            .object(),
    )
}

/// Whether the runs of a group can be shown.
pub open spec fn group_showable(group: RunGroup) -> bool {
    forall|i: int| 0 <= i < group.runs@.len() ==> outcome_showable(#[trigger] group.runs@[i].outcome)
}

/// The runs of a group, as JSON.
pub open spec fn group_json(group: RunGroup) -> Json {
    json::object_of(
        json::none().push(("part"@, group.part.json())).push(
            (
                "runs"@,
                Json::Array(Seq::new(group.runs@.len(), |i: int| run_json(group.runs@[i]))),
            ),
        ),
    )
}

/// The runs of a group, as JSON, where they can be shown.
pub fn render_run_group(group: &RunGroup) -> (value: Option<serde_json::Value>)
    ensures
        shows(value, group_showable(*group), group_json(*group)),
{
    let mut values: Vec<serde_json::Value> = Vec::new();
    let mut i: usize = 0;
    while i < group.runs.len()
        invariant
            i <= group.runs@.len(),
            values@.len() == i,
            forall|j: int|
                0 <= j < i ==> json::json_of(#[trigger] values@[j]) == run_json(group.runs@[j]),
            forall|j: int| 0 <= j < i ==> outcome_showable(#[trigger] group.runs@[j].outcome),
        decreases group.runs@.len() - i,
    {
        match render_run(&group.runs[i]) {
            Some(value) => {
                values.push(value);
            },
            None => {
                assert(!outcome_showable(group.runs@[i as int].outcome));
                return None;
            },
        }
        i += 1;
    }
    assert(json::jsons_of(values@) =~= Seq::new(
        group.runs@.len(),
        |i: int| run_json(group.runs@[i]),
    ));
    Some(
        Members::new()
            .with("part", group.part.render())
            .with("runs", json::array(values))
            .object(),
    )
}

/// Whether what the work did can be shown.
pub open spec fn execution_showable(execution: FlowExecution) -> bool {
    forall|i: int|
        0 <= i < execution.run_groups@.len() ==> group_showable(#[trigger] execution.run_groups@[i])
}

/// What the work did, as JSON.
pub open spec fn execution_json(execution: FlowExecution) -> Json {
    json::object_of(
        json::none().push(
            (
                "run_groups"@,
                Json::Array(
                    Seq::new(
                        execution.run_groups@.len(),
                        |i: int| group_json(execution.run_groups@[i]),
                    ),
                ),
            ),
        ).push(("flow_coverage"@, all_json(execution.flow_coverage@))),
    )
}

/// What the work did, as JSON, where it can be shown.
pub fn render_execution(execution: &FlowExecution) -> (value: Option<serde_json::Value>)
    ensures
        shows(value, execution_showable(*execution), execution_json(*execution)),
{
    let mut values: Vec<serde_json::Value> = Vec::new();
    let mut i: usize = 0;
    while i < execution.run_groups.len()
        invariant
            i <= execution.run_groups@.len(),
            values@.len() == i,
            forall|j: int|
                0 <= j < i ==> json::json_of(#[trigger] values@[j]) == group_json(
                    execution.run_groups@[j],
                ),
            forall|j: int| 0 <= j < i ==> group_showable(#[trigger] execution.run_groups@[j]),
        decreases execution.run_groups@.len() - i,
    {
        match render_run_group(&execution.run_groups[i]) {
            Some(value) => {
                values.push(value);
            },
            None => {
                assert(!group_showable(execution.run_groups@[i as int]));
                return None;
            },
        }
        i += 1;
    }
    assert(json::jsons_of(values@) =~= Seq::new(
        execution.run_groups@.len(),
        |i: int| group_json(execution.run_groups@[i]),
    ));
    Some(
        Members::new()
            .with("run_groups", json::array(values))
            .with("flow_coverage", render_all(&execution.flow_coverage))
            .object(),
    )
}

impl Render for SignalKind {
    open spec fn json(&self) -> Json {
        Json::String(
            match *self {
                SignalKind::Spans => "spans"@,
                SignalKind::LogRecords => "log_records"@,
                SignalKind::MetricPoints => "metric_points"@,
            },
        )
    }

    fn render(&self) -> (value: serde_json::Value) {
        json::string(
            match self {
                SignalKind::Spans => "spans",
                SignalKind::LogRecords => "log_records",
                SignalKind::MetricPoints => "metric_points",
            },
        )
    }
}

impl Render for SignalRef {
    open spec fn json(&self) -> Json {
        json::object_of(
            json::none().push(("kind"@, self.kind.json())).push(
                ("entity"@, entity_json(self.entity)),
            ),
        )
    }

    fn render(&self) -> (value: serde_json::Value) {
        Members::new()
            .with("kind", self.kind.render())
            .with("entity", render_entity(&self.entity))
            .object()
    }
}

impl Render for RelationType {
    open spec fn json(&self) -> Json {
        Json::String(
            match *self {
                RelationType::SpanIdentity => "span_identity"@,
                RelationType::TraceIdentity => "trace_identity"@,
                RelationType::ParentChild => "parent_child"@,
                RelationType::ResourceContext => "resource_context"@,
                RelationType::TemporalCoActivity => "temporal_co_activity"@,
                RelationType::ExemplarAttachment => "exemplar_attachment"@,
                RelationType::Inferred => "inferred"@,
            },
        )
    }

    fn render(&self) -> (value: serde_json::Value) {
        json::string(
            match self {
                RelationType::SpanIdentity => "span_identity",
                RelationType::TraceIdentity => "trace_identity",
                RelationType::ParentChild => "parent_child",
                RelationType::ResourceContext => "resource_context",
                RelationType::TemporalCoActivity => "temporal_co_activity",
                RelationType::ExemplarAttachment => "exemplar_attachment",
                RelationType::Inferred => "inferred",
            },
        )
    }
}

/// A value, as JSON: bytes in hexadecimal, and `null` for what is made of other
/// values. `double` is what is shown of a double.
pub open spec fn value_json(value: AnyValue, double: Json) -> Json {
    match value {
        AnyValue::String(text) => Json::String(text@),
        AnyValue::Int(number) => Json::Integer(number as int),
        AnyValue::Double(_) => double,
        AnyValue::Bool(flag) => Json::Bool(flag),
        AnyValue::Bytes(bytes) => hex_json(bytes@),
        AnyValue::Array(_) => Json::Null,
        AnyValue::KvList(_) => Json::Null,
    }
}

/// A value, as JSON. `double` is what is shown of a double.
pub fn render_model_value(value: &AnyValue, double: &serde_json::Value) -> (shown:
    serde_json::Value)
    ensures
        json::json_of(shown) == value_json(*value, json::json_of(*double)),
{
    match value {
        AnyValue::String(text) => json::string(text.as_str()),
        AnyValue::Int(number) => json::signed(*number),
        AnyValue::Double(_) => json::copy(double),
        AnyValue::Bool(flag) => json::bool(*flag),
        AnyValue::Bytes(bytes) => render_hex(bytes.as_slice()),
        AnyValue::Array(_) => json::null(),
        AnyValue::KvList(_) => json::null(),
    }
}

impl Render for EvidenceFact {
    open spec fn json(&self) -> Json {
        json::object_of(
            json::none().push(("field"@, Json::String(self.field@))).push(
                ("value"@, value_json(self.value, json::json_of(self.double))),
            ),
        )
    }

    fn render(&self) -> (value: serde_json::Value) {
        Members::new()
            .with("field", json::string(self.field.as_str()))
            .with("value", render_model_value(&self.value, &self.double))
            .object()
    }
}

impl Render for StrategyVersion {
    open spec fn json(&self) -> Json {
        json::object_of(
            json::none().push(("name"@, Json::String(self.name@))).push(
                ("version"@, count_json(self.version)),
            ),
        )
    }

    fn render(&self) -> (value: serde_json::Value) {
        Members::new()
            .with("name", json::string(self.name.as_str()))
            .with("version", json::unsigned(self.version))
            .object()
    }
}

impl Render for Relation {
    open spec fn json(&self) -> Json {
        json::object_of(
            json::none().push(("type"@, self.relation_type.json())).push(
                ("from"@, self.from.json()),
            ).push(("to"@, self.to.json())).push(("facts"@, all_json(self.facts@))).push(
                ("strategy"@, self.strategy.json()),
            ).push(("window"@, optional_json(self.window))),
        )
    }

    fn render(&self) -> (value: serde_json::Value) {
        Members::new()
            .with("type", self.relation_type.render())
            .with("from", self.from.render())
            .with("to", self.to.render())
            .with("facts", render_all(&self.facts))
            .with("strategy", self.strategy.render())
            .with("window", render_optional(&self.window))
            .object()
    }
}

impl Render for Correlated {
    open spec fn json(&self) -> Json {
        json::object_of(json::none().push(("relations"@, all_json(self.relations@))))
    }

    fn render(&self) -> (value: serde_json::Value) {
        Members::new().with("relations", render_all(&self.relations)).object()
    }
}

impl Render for SpanEvidence {
    open spec fn json(&self) -> Json {
        let span = json::none().push(("trace_id"@, hex_json(self.span.context.trace_id@))).push(
            ("span_id"@, hex_json(self.span.context.span_id@)),
        ).push(("parent_span_id"@, optional_json(self.span.parent_span_id))).push(
            ("name"@, Json::String(self.span.name@)),
        ).push(("start_time_unix_nano"@, count_json(self.span.start_time_unix_nano))).push(
            ("end_time_unix_nano"@, optional_json(self.span.end_time_unix_nano)),
        );
        json::object_of(
            json::none().push(("entity"@, optional_json(self.entity))).push(
                ("span"@, json::object_of(span)),
            ),
        )
    }

    fn render(&self) -> (value: serde_json::Value) {
        let span = Members::new()
            .with("trace_id", render_trace_id(self.span.context.trace_id))
            .with("span_id", render_span_id(self.span.context.span_id))
            .with("parent_span_id", render_optional(&self.span.parent_span_id))
            .with("name", json::string(self.span.name.as_str()))
            .with("start_time_unix_nano", json::unsigned(self.span.start_time_unix_nano))
            .with("end_time_unix_nano", render_optional(&self.span.end_time_unix_nano));
        Members::new()
            .with("entity", render_optional(&self.entity))
            .with("span", span.object())
            .object()
    }
}

impl Render for LogEvidence {
    open spec fn json(&self) -> Json {
        let log = json::none().push(
            ("timestamp_unix_nano"@, optional_json(self.log.timestamp_unix_nano)),
        ).push(
            (
                "observed_timestamp_unix_nano"@,
                optional_json(self.log.observed_timestamp_unix_nano),
            ),
        ).push(
            (
                "body"@,
                match self.log.body {
                    Some(body) => value_json(body, json::json_of(self.double)),
                    None => Json::Null,
                },
            ),
        ).push(("trace_id"@, optional_json(self.log.trace_id))).push(
            ("span_id"@, optional_json(self.log.span_id)),
        );
        json::object_of(
            json::none().push(("entity"@, optional_json(self.entity))).push(
                ("log"@, json::object_of(log)),
            ),
        )
    }

    fn render(&self) -> (value: serde_json::Value) {
        let body = match &self.log.body {
            Some(body) => render_model_value(body, &self.double),
            None => json::null(),
        };
        let log = Members::new()
            .with("timestamp_unix_nano", render_optional(&self.log.timestamp_unix_nano))
            .with(
                "observed_timestamp_unix_nano",
                render_optional(&self.log.observed_timestamp_unix_nano),
            )
            .with("body", body)
            .with("trace_id", render_optional(&self.log.trace_id))
            .with("span_id", render_optional(&self.log.span_id));
        Members::new()
            .with("entity", render_optional(&self.entity))
            .with("log", log.object())
            .object()
    }
}

/// A metric point's number, as JSON. `double` is what is shown of a double.
pub open spec fn number_json(number: MetricNumber, double: Json) -> Json {
    json::object_of(
        match number {
            MetricNumber::Int(value) => json::none().push(("int"@, Json::Integer(value as int))),
            MetricNumber::Double(_) => json::none().push(("double"@, double)),
        },
    )
}

/// A metric point's number, as JSON. `double` is what is shown of a double.
pub fn render_number(number: &MetricNumber, double: &serde_json::Value) -> (shown:
    serde_json::Value)
    ensures
        json::json_of(shown) == number_json(*number, json::json_of(*double)),
{
    match number {
        MetricNumber::Int(value) => Members::new().with("int", json::signed(*value)).object(),
        MetricNumber::Double(_) => Members::new().with("double", json::copy(double)).object(),
    }
}

/// An object that holds nothing but its shape.
pub open spec fn shape_json(shape: Seq<char>) -> Seq<(Seq<char>, Json)> {
    json::none().push(("shape"@, Json::String(shape)))
}

/// A metric point, as JSON: of a distribution, only its shape. `double` is what
/// is shown of a double.
pub open spec fn point_json(point: MetricPoint, double: Json) -> Json {
    json::object_of(
        match point {
            MetricPoint::Number(number) => shape_json("number"@).push(
                ("time_unix_nano"@, count_json(number.time_unix_nano)),
            ).push(("value"@, number_json(number.value, double))),
            MetricPoint::Histogram(_) => shape_json("histogram"@),
            MetricPoint::ExponentialHistogram(_) => shape_json("exponential_histogram"@),
            MetricPoint::Summary(_) => shape_json("summary"@),
        },
    )
}

fn shape(name: &str) -> (members: Members)
    ensures
        members@ == shape_json(name@),
{
    Members::new().with("shape", json::string(name))
}

/// A metric point, as JSON. `double` is what is shown of a double.
pub fn render_point(point: &MetricPoint, double: &serde_json::Value) -> (shown: serde_json::Value)
    ensures
        json::json_of(shown) == point_json(*point, json::json_of(*double)),
{
    match point {
        MetricPoint::Number(number) => shape("number")
            .with("time_unix_nano", json::unsigned(number.time_unix_nano))
            .with("value", render_number(&number.value, double))
            .object(),
        MetricPoint::Histogram(_) => shape("histogram").object(),
        MetricPoint::ExponentialHistogram(_) => shape("exponential_histogram").object(),
        MetricPoint::Summary(_) => shape("summary").object(),
    }
}

impl Render for PointEvidence {
    open spec fn json(&self) -> Json {
        json::object_of(
            json::none().push(("entity"@, optional_json(self.entity))).push(
                ("point"@, point_json(*self.point, json::json_of(self.double))),
            ).push(
                (
                    "stream"@,
                    json::object_of(
                        json::none().push(("name"@, Json::String(self.stream.name@))),
                    ),
                ),
            ),
        )
    }

    fn render(&self) -> (value: serde_json::Value) {
        let stream = Members::new().with("name", json::string(self.stream.name.as_str()));
        Members::new()
            .with("entity", render_optional(&self.entity))
            .with("point", render_point(&self.point, &self.double))
            .with("stream", stream.object())
            .object()
    }
}

impl Render for Evidence {
    open spec fn json(&self) -> Json {
        json::object_of(
            json::none().push(("spans"@, all_json(self.spans@))).push(
                ("logs"@, all_json(self.logs@)),
            ).push(("points"@, all_json(self.points@))),
        )
    }

    fn render(&self) -> (value: serde_json::Value) {
        Members::new()
            .with("spans", render_all(&self.spans))
            .with("logs", render_all(&self.logs))
            .with("points", render_all(&self.points))
            .object()
    }
}

impl Render for ChainBasis {
    open spec fn json(&self) -> Json {
        Json::String(
            match *self {
                ChainBasis::TotalEntities => "total_entities"@,
                ChainBasis::TotalPages => "total_pages"@,
            },
        )
    }

    fn render(&self) -> (value: serde_json::Value) {
        json::string(
            match self {
                ChainBasis::TotalEntities => "total_entities",
                ChainBasis::TotalPages => "total_pages",
            },
        )
    }
}

impl Render for ChainSpend {
    open spec fn json(&self) -> Json {
        json::object_of(
            json::none().push(("max_total_entities"@, count_json(self.max_total_entities))).push(
                ("max_total_pages"@, count_json(self.max_total_pages)),
            ).push(("total_entities"@, count_json(self.total_entities))).push(
                ("total_pages"@, count_json(self.total_pages)),
            ).push(("identity_examinations"@, count_json(self.identity_examinations))).push(
                ("stopped"@, optional_json(self.stopped)),
            ),
        )
    }

    fn render(&self) -> (value: serde_json::Value) {
        Members::new()
            .with("max_total_entities", json::unsigned(self.max_total_entities))
            .with("max_total_pages", json::unsigned(self.max_total_pages))
            .with("total_entities", json::unsigned(self.total_entities))
            .with("total_pages", json::unsigned(self.total_pages))
            .with("identity_examinations", json::unsigned(self.identity_examinations))
            .with("stopped", render_optional(&self.stopped))
            .object()
    }
}

impl Render for EvictionState {
    open spec fn json(&self) -> Json {
        json::object_of(
            json::none().push(("resident_records"@, count_json(self.resident_records))).push(
                ("total_evictions"@, count_json(self.total_evictions)),
            ),
        )
    }

    fn render(&self) -> (value: serde_json::Value) {
        Members::new()
            .with("resident_records", json::unsigned(self.resident_records))
            .with("total_evictions", json::unsigned(self.total_evictions))
            .object()
    }
}

/// What a page could spend, as JSON.
pub open spec fn budget_json(budget: InvestigationBudget) -> Json {
    json::object_of(
        json::none().push(("deadline_ms"@, Json::Integer(millis(budget.deadline) as int))).push(
            ("max_results"@, count_json(budget.max_results)),
        ).push(("max_bytes"@, count_json(budget.max_bytes))).push(
            ("max_scan"@, count_json(budget.max_scan)),
        ).push(("max_aggregation_memory"@, count_json(budget.max_aggregation_memory))),
    )
}

/// What the work could spend, and did, as JSON.
pub open spec fn limits_json(limits: Limits) -> Json {
    json::object_of(
        json::none().push(("budget"@, budget_json(limits.budget))).push(
            ("chain"@, limits.chain.json()),
        ).push(("strategy_versions"@, all_json(limits.strategy_versions@))).push(
            ("eviction"@, limits.eviction.json()),
        ),
    )
}

/// What the work could spend, and did, as JSON, where it can be shown.
pub fn render_limits(limits: &Limits) -> (value: Option<serde_json::Value>)
    ensures
        shows(value, showable(limits.budget.deadline), limits_json(*limits)),
{
    let deadline: u64 = match shown_millis(&limits.budget.deadline) {
        Some(millis) => millis,
        None => {
            return None;
        },
    };
    let budget = Members::new()
        .with("deadline_ms", json::unsigned(deadline))
        .with("max_results", json::unsigned(limits.budget.max_results))
        .with("max_bytes", json::unsigned(limits.budget.max_bytes))
        .with("max_scan", json::unsigned(limits.budget.max_scan))
        .with("max_aggregation_memory", json::unsigned(limits.budget.max_aggregation_memory));
    Some(
        Members::new()
            .with("budget", budget.object())
            .with("chain", limits.chain.render())
            .with("strategy_versions", render_all(&limits.strategy_versions))
            .with("eviction", limits.eviction.render())
            .object(),
    )
}

/// Whether an investigation can be shown: each of its durations can.
pub open spec fn investigation_showable(investigation: Investigation) -> bool {
    execution_showable(investigation.execution) && showable(investigation.limits.budget.deadline)
}

/// An investigation, as JSON.
pub open spec fn investigation_json(investigation: Investigation) -> Json {
    json::object_of(
        json::none().push(("subject"@, investigation.subject.json())).push(
            ("execution"@, execution_json(investigation.execution)),
        ).push(("correlated"@, investigation.correlated.json())).push(
            ("evidence"@, investigation.evidence.json()),
        ).push(("limits"@, limits_json(investigation.limits))),
    )
}

/// An investigation, as JSON, where each of its durations can be shown.
pub fn render_investigation(investigation: &Investigation) -> (value: Option<serde_json::Value>)
    ensures
        shows(value, investigation_showable(*investigation), investigation_json(*investigation)),
{
    let execution = match render_execution(&investigation.execution) {
        Some(execution) => execution,
        None => {
            return None;
        },
    };
    let limits = match render_limits(&investigation.limits) {
        Some(limits) => limits,
        None => {
            return None;
        },
    };
    Some(
        Members::new()
            .with("subject", investigation.subject.render())
            .with("execution", execution)
            .with("correlated", investigation.correlated.render())
            .with("evidence", investigation.evidence.render())
            .with("limits", limits)
            .object(),
    )
}

/// A record's identity, in words.
pub open spec fn entity_words(entity: EntityId) -> Seq<char> {
    match entity {
        EntityId::Span { trace_id, span_id } => "span "@ + text::hex_text(trace_id@) + ":"@
            + text::hex_text(span_id@),
        EntityId::Assigned(id) => "assigned "@ + text::decimal(id@ as nat),
    }
}

/// A record's identity, in words.
pub fn entity_text(entity: &EntityId) -> (words: String)
    ensures
        words@ == entity_words(*entity),
{
    match entity {
        EntityId::Span { trace_id, span_id } => {
            let mut words = "span ".to_owned();
            words.append(text::hex(trace_id.as_bytes().as_slice()).as_str());
            words.append(":");
            words.append(text::hex(span_id.as_bytes().as_slice()).as_str());
            words
        },
        EntityId::Assigned(id) => {
            let mut words = "assigned ".to_owned();
            text::push_decimal(&mut words, id.serial().get());
            words
        },
    }
}

/// What is answered to a request: a status, and JSON.
#[derive(Debug)]
pub struct JsonAnswer {
    /// The status.
    pub status: u16,
    /// The body.
    pub body: serde_json::Value,
}

/// What is answered to a request: a status, and JSON.
pub ghost struct JsonAnswerModel {
    /// The status.
    pub status: int,
    /// The body.
    pub body: Json,
}

impl View for JsonAnswer {
    type V = JsonAnswerModel;

    open spec fn view(&self) -> JsonAnswerModel {
        JsonAnswerModel { status: self.status as int, body: json::json_of(self.body) }
    }
}

/// An answer that names an error.
pub open spec fn error_answer(status: int, message: Seq<char>) -> JsonAnswerModel {
    JsonAnswerModel {
        status,
        body: json::object_of(json::none().push(("error"@, Json::String(message)))),
    }
}

/// An answer that names an error.
pub fn json_error(status: u16, message: &str) -> (answer: JsonAnswer)
    ensures
        answer@ == error_answer(status as int, message@),
{
    JsonAnswer { status, body: Members::new().with("error", json::string(message)).object() }
}

/// What a request is refused for before its body is read: that it declares one
/// over the ceiling.
pub fn refused_unread(content_length: Option<&str>, ceiling_bytes: usize) -> (refusal: Option<
    JsonAnswer,
>)
    ensures
        if otlp_http::declares_over(content_length, ceiling_bytes as nat) {
            refusal matches Some(answer) && answer@ == error_answer(
                413,
                "the investigation request exceeds the "@ + text::decimal(ceiling_bytes as nat)
                    + "-byte ceiling; refused before reading, non-retryable"@,
            )
        } else {
            refusal is None
        },
{
    if !otlp_http::declared_over_ceiling(content_length, ceiling_bytes) {
        return None;
    }
    let mut message = "the investigation request exceeds the ".to_owned();
    text::push_decimal(&mut message, ceiling_bytes as u64);
    message.append("-byte ceiling; refused before reading, non-retryable");
    Some(json_error(413, message.as_str()))
}

/// What a request is answered whose body could not be read: it did not arrive in
/// time, or not in full.
pub fn read_failure(timed_out: bool) -> (answer: JsonAnswer)
    ensures
        answer@ == if timed_out {
            error_answer(
                408,
                "the request body did not arrive in full within the read deadline; nothing was parsed or investigated"@,
            )
        } else {
            error_answer(
                400,
                "the request body could not be read in full; nothing was parsed or investigated"@,
            )
        },
{
    if timed_out {
        json_error(
            408,
            "the request body did not arrive in full within the read deadline; nothing was parsed or investigated",
        )
    } else {
        json_error(
            400,
            "the request body could not be read in full; nothing was parsed or investigated",
        )
    }
}

/// The investigation that a request's body asks for, or what is answered where it
/// asks for none.
pub fn requested(payload: &[u8], payload_ceiling_bytes: usize) -> (request: Result<
    TraceInvestigationRequest,
    JsonAnswer,
>)
    ensures
        match request {
            Ok(request) => {
                &&& subject_of(payload@) == Ok::<EntityModel, Seq<char>>(
                    entity_model(request.root_span),
                )
                &&& time::duration_nanos(request.budget.deadline)
                    == investigation::PAGE_DEADLINE_SECS * 1_000_000_000
                &&& request.budget.max_results == investigation::PAGE_MAX_RESULTS
                &&& request.budget.max_bytes == payload_ceiling_bytes
                &&& request.budget.max_scan == investigation::PAGE_MAX_SCAN
                &&& request.budget.max_aggregation_memory
                    == investigation::PAGE_MAX_AGGREGATION_MEMORY
            },
            Err(answer) => subject_of(payload@) matches Err(reason) && answer@ == error_answer(
                400,
                reason,
            ),
        },
{
    match parse_subject(payload) {
        Ok(root_span) => Ok(
            TraceInvestigationRequest {
                root_span,
                budget: investigation::admitted_budget(payload_ceiling_bytes),
            },
        ),
        Err(reason) => Err(json_error(400, reason.as_str())),
    }
}

/// What an investigation without an answer is answered.
pub open spec fn flow_error_answer(error: FlowError) -> JsonAnswerModel {
    match error {
        FlowError::SubjectUnresolved { requested } => error_answer(
            404,
            "no resident record carries the requested subject ("@ + entity_words(requested)
                + ") — it was never admitted, or evicted"@,
        ),
        FlowError::CursorRejected => error_answer(
            500,
            "the flow rejected an engine continuation cursor — an internal contract violation; nothing was fabricated"@,
        ),
        FlowError::EngineContract => error_answer(
            500,
            "the engine returned an answer the envelope contract cannot hold — an internal contract violation; nothing was fabricated"@,
        ),
    }
}

/// What an investigation is answered. There is no answer where a duration cannot
/// be shown.
pub fn answer(result: &Result<Investigation, FlowError>) -> (answer: Option<JsonAnswer>)
    ensures
        match *result {
            Ok(investigation) => match answer {
                Some(answer) => investigation_showable(investigation) && answer@ == (
                JsonAnswerModel { status: 200, body: investigation_json(investigation) }),
                None => !investigation_showable(investigation),
            },
            Err(error) => answer matches Some(answer) && answer@ == flow_error_answer(error),
        },
{
    match result {
        Ok(investigation) => match render_investigation(investigation) {
            Some(body) => Some(JsonAnswer { status: 200, body }),
            None => None,
        },
        Err(FlowError::SubjectUnresolved { requested }) => {
            let mut message = "no resident record carries the requested subject (".to_owned();
            message.append(entity_text(requested).as_str());
            message.append(") — it was never admitted, or evicted");
            Some(json_error(404, message.as_str()))
        },
        Err(FlowError::CursorRejected) => Some(
            json_error(
                500,
                "the flow rejected an engine continuation cursor — an internal contract violation; nothing was fabricated",
            ),
        ),
        Err(FlowError::EngineContract) => Some(
            json_error(
                500,
                "the engine returned an answer the envelope contract cannot hold — an internal contract violation; nothing was fabricated",
            ),
        ),
    }
}

proof fn a_member_is_missing(pairs: Seq<(Seq<char>, Json)>, name: Seq<char>)
    requires
        forall|i: int| 0 <= i < pairs.len() ==> (#[trigger] pairs[i]).0 != name,
    ensures
        json::member(json::object_of(pairs), name) is None,
    decreases pairs.len(),
{
    if pairs.len() > 0 {
        let last = pairs[pairs.len() - 1];
        assert forall|i: int| 0 <= i < pairs.drop_last().len() implies (
        #[trigger] pairs.drop_last()[i]).0 != name by {
            assert(pairs[i].0 != name);
        }
        a_member_is_missing(pairs.drop_last(), name);
    }
}

/// An answer is an envelope or an error, and says which: an error names itself,
/// and an envelope holds none.
pub proof fn an_envelope_holds_no_error(
    investigation: Investigation,
    status: int,
    message: Seq<char>,
)
    ensures
        json::member(investigation_json(investigation), "error"@) is None,
        json::member(error_answer(status, message).body, "error"@) == Some(Json::String(message)),
{
    reveal_strlit("error");
    reveal_strlit("subject");
    reveal_strlit("execution");
    reveal_strlit("correlated");
    reveal_strlit("evidence");
    reveal_strlit("limits");
    let members = json::none().push(("subject"@, investigation.subject.json())).push(
        ("execution"@, execution_json(investigation.execution)),
    ).push(("correlated"@, investigation.correlated.json())).push(
        ("evidence"@, investigation.evidence.json()),
    ).push(("limits"@, limits_json(investigation.limits)));
    assert("error"@.len() == 5);
    a_member_is_missing(members, "error"@);
    a_member_is_found(json::none().push(("error"@, Json::String(message))), 0);
}

/// Trace investigations are asked for under their path.
pub proof fn investigations_stand_under_their_path()
    ensures
        INVESTIGATION_TRACES_PATH@ == "/v1/investigations/traces"@,
{
}

}
