//! Investigations: what a trace investigation is asked, and the envelope it is
//! answered with.

use crate::engine::SignalKind;
use crate::model::{
    AnyValue, EntityId, LogRecord, MetricPoint, Span, SpanId, StreamIdentity, TraceId,
};
use crate::result::{CoverageEntry, PartOutcome};
use crate::time;
use std::sync::Arc;
use std::time::Duration;
use vstd::prelude::*;

verus! {

/// How long a page may take, in seconds.
pub const PAGE_DEADLINE_SECS: u64 = 30;

/// How many results a page may hold.
pub const PAGE_MAX_RESULTS: u64 = 1_000;

/// How many records a page may examine.
pub const PAGE_MAX_SCAN: u64 = 100_000;

/// How much memory a page may aggregate in.
pub const PAGE_MAX_AGGREGATION_MEMORY: u64 = 4_194_304;

/// How many records an investigation may gather.
pub const CHAIN_MAX_TOTAL_ENTITIES: u64 = 10_000;

/// How many pages an investigation may read.
pub const CHAIN_MAX_TOTAL_PAGES: u64 = 16;

/// How many records an investigation may examine for an identity.
pub const CHAIN_MAX_IDENTITY_EXAMINATIONS: u64 = 100_000;

/// What each page of an investigation may spend.
#[derive(Clone, Copy, Debug, PartialEq, Eq)]
pub struct InvestigationBudget {
    /// How long a page may take.
    pub deadline: Duration,
    /// How many results a page may hold.
    pub max_results: u64,
    /// How many bytes a page may hold.
    pub max_bytes: u64,
    /// How many records a page may examine.
    pub max_scan: u64,
    /// How much memory a page may aggregate in.
    pub max_aggregation_memory: u64,
}

/// What the pages of an investigation may spend together.
#[derive(Clone, Copy, Debug, PartialEq, Eq)]
pub struct ChainBudget {
    /// How many pages it may read.
    pub max_total_pages: u64,
    /// How many records it may gather.
    pub max_total_entities: u64,
    /// How many records it may examine for an identity.
    pub max_identity_examinations: u64,
}

/// A trace investigation: where it starts, and what it may spend.
#[derive(Clone, Copy, Debug, PartialEq, Eq)]
pub struct TraceInvestigationRequest {
    /// The span it starts from.
    pub root_span: EntityId,
    /// What each page may spend.
    pub budget: InvestigationBudget,
}

/// What each page of an investigation may spend, where a payload may hold
/// `payload_ceiling_bytes`.
pub fn admitted_budget(payload_ceiling_bytes: usize) -> (budget: InvestigationBudget)
    ensures
        time::duration_nanos(budget.deadline) == PAGE_DEADLINE_SECS * 1_000_000_000,
        budget.max_results == PAGE_MAX_RESULTS,
        budget.max_bytes == payload_ceiling_bytes,
        budget.max_scan == PAGE_MAX_SCAN,
        budget.max_aggregation_memory == PAGE_MAX_AGGREGATION_MEMORY,
{
    InvestigationBudget {
        deadline: Duration::from_secs(PAGE_DEADLINE_SECS),
        max_results: PAGE_MAX_RESULTS,
        max_bytes: payload_ceiling_bytes as u64,
        max_scan: PAGE_MAX_SCAN,
        max_aggregation_memory: PAGE_MAX_AGGREGATION_MEMORY,
    }
}

/// What the pages of an investigation may spend together.
pub fn admitted_chain() -> (chain: ChainBudget)
    ensures
        chain.max_total_pages == CHAIN_MAX_TOTAL_PAGES,
        chain.max_total_entities == CHAIN_MAX_TOTAL_ENTITIES,
        chain.max_identity_examinations == CHAIN_MAX_IDENTITY_EXAMINATIONS,
{
    ChainBudget {
        max_total_pages: CHAIN_MAX_TOTAL_PAGES,
        max_total_entities: CHAIN_MAX_TOTAL_ENTITIES,
        max_identity_examinations: CHAIN_MAX_IDENTITY_EXAMINATIONS,
    }
}

/// Why an investigation has no answer.
#[derive(Clone, Copy, Debug, PartialEq, Eq)]
pub enum FlowError {
    /// No resident record is the one it starts from.
    SubjectUnresolved {
        /// The record that was asked for.
        requested: EntityId,
    },
    /// A cursor that the engine had returned was rejected.
    CursorRejected,
    /// The engine returned what the envelope cannot hold.
    EngineContract,
}

/// The answer to an investigation.
#[derive(Debug)]
pub struct Investigation {
    /// What was asked for, and what it was taken for.
    pub subject: Subject,
    /// What the work did.
    pub execution: FlowExecution,
    /// What is related to what.
    pub correlated: Correlated,
    /// The records.
    pub evidence: Evidence,
    /// What the work could spend, and did.
    pub limits: Limits,
}

/// What was asked for, and what it was taken for.
#[derive(Debug)]
pub struct Subject {
    /// What was asked for.
    pub requested: RequestedSubject,
    /// What it was taken for.
    pub effective: EffectiveSubject,
}

/// What was asked for.
#[derive(Clone, Copy, Debug, PartialEq, Eq)]
pub struct RequestedSubject {
    /// The span to start from.
    pub root_span: EntityId,
}

/// What the subject was taken for.
#[derive(Debug)]
pub struct EffectiveSubject {
    /// The root of the trace.
    pub root: EffectiveRoot,
    /// How it was found.
    pub notes: Vec<ResolutionNote>,
}

/// The root of a trace.
#[derive(Debug)]
pub struct EffectiveRoot {
    /// The root span.
    pub entity: EntityId,
    /// Its name.
    pub name: String,
    /// Its trace.
    pub trace_id: TraceId,
    /// Its id inside the trace.
    pub span_id: SpanId,
}

/// How the root of a trace was found.
#[derive(Debug)]
pub enum ResolutionNote {
    /// The span that was asked for is the root.
    RequestedSpanIsRoot,
    /// Another span of the trace is the root.
    TraceRootedAt {
        /// The root span.
        entity: EntityId,
        /// Its name.
        name: String,
        /// Its id inside the trace.
        span_id: SpanId,
    },
    /// No resident span of the trace is without a parent.
    NoParentlessSpanResident,
    /// The span that was asked for carries no valid trace identity.
    RootHasNoValidTraceIdentity,
}

/// What the work did.
#[derive(Debug)]
pub struct FlowExecution {
    /// What was run for each part of the answer.
    pub run_groups: Vec<RunGroup>,
    /// What the answer as a whole did not cover.
    pub flow_coverage: Vec<FlowCoverageEntry>,
}

/// The runs for one part of the answer.
#[derive(Debug)]
pub struct RunGroup {
    /// The part.
    pub part: PartName,
    /// Its runs, in order.
    pub runs: Vec<RunFacts>,
}

/// A part of the answer.
#[derive(Clone, Copy, Debug, PartialEq, Eq)]
pub enum PartName {
    /// The spans of the trace.
    Spans,
    /// The log records of the trace.
    RelatedLogs,
    /// The metric points around it.
    SurroundingMetrics,
}

/// What one run did.
#[derive(Debug)]
pub struct RunFacts {
    /// How it ended.
    pub outcome: PartOutcome,
    /// What it did not cover.
    pub coverage: Vec<CoverageEntry>,
    /// Where it can be continued.
    pub next_cursor: Option<Vec<u8>>,
}

/// What the answer as a whole did not cover.
#[derive(Clone, Copy, Debug, PartialEq, Eq)]
pub enum FlowCoverageEntry {
    /// The window that metric points were looked for in.
    MetricWindow {
        /// The window that was asked for.
        asked: TimeWindow,
        /// The window that is resident.
        resident: TimeWindow,
    },
    /// How many admissions were anomalous.
    AdmissionAnomalies {
        /// How many.
        total: u64,
    },
    /// Records of a part that left between two reads.
    ResidencyHole {
        /// The part.
        part: PartName,
        /// How many.
        count: u64,
    },
}

/// A window of time, in nanoseconds since the epoch.
#[derive(Clone, Copy, Debug, PartialEq, Eq)]
pub struct TimeWindow {
    /// Where it begins.
    pub from: u64,
    /// Where it ends.
    pub to: u64,
}

/// What is related to what.
#[derive(Debug)]
pub struct Correlated {
    /// The relations.
    pub relations: Vec<Relation>,
}

/// A relation between two records.
#[derive(Debug)]
pub struct Relation {
    /// Its type.
    pub relation_type: RelationType,
    /// The record it leads from.
    pub from: SignalRef,
    /// The record it leads to.
    pub to: SignalRef,
    /// What it rests on.
    pub facts: Vec<EvidenceFact>,
    /// What found it.
    pub strategy: StrategyVersion,
    /// The window it was found in.
    pub window: Option<TimeWindow>,
}

/// The type of a relation.
#[derive(Clone, Copy, Debug, PartialEq, Eq)]
pub enum RelationType {
    /// The same span.
    SpanIdentity,
    /// The same trace.
    TraceIdentity,
    /// Parent and child.
    ParentChild,
    /// The same resource.
    ResourceContext,
    /// The same time.
    TemporalCoActivity,
    /// An exemplar.
    ExemplarAttachment,
    /// An inference.
    Inferred,
}

/// A record of some kind.
#[derive(Clone, Copy, Debug, PartialEq, Eq)]
pub struct SignalRef {
    /// The kind.
    pub kind: SignalKind,
    /// The record.
    pub entity: EntityId,
}

/// A field and its value. A double is held as it is shown: `double` is what is
/// shown of the value where it is one.
#[derive(Debug)]
pub struct EvidenceFact {
    /// The field.
    pub field: String,
    /// Its value.
    pub value: AnyValue,
    /// How the value is shown where it is a double.
    pub double: serde_json::Value,
}

/// A strategy that finds relations.
#[derive(Debug)]
pub struct StrategyVersion {
    /// Its name.
    pub name: String,
    /// Its version.
    pub version: u64,
}

/// The records of an answer.
#[derive(Debug)]
pub struct Evidence {
    /// The spans.
    pub spans: Vec<SpanEvidence>,
    /// The log records.
    pub logs: Vec<LogEvidence>,
    /// The metric points.
    pub points: Vec<PointEvidence>,
}

/// A span of an answer.
#[derive(Debug)]
pub struct SpanEvidence {
    /// Its identity.
    pub entity: Option<EntityId>,
    /// The span.
    pub span: Arc<Span>,
}

/// A log record of an answer.
#[derive(Debug)]
pub struct LogEvidence {
    /// Its identity.
    pub entity: Option<EntityId>,
    /// The log record.
    pub log: Arc<LogRecord>,
    /// How its body is shown where it is a double.
    pub double: serde_json::Value,
}

/// A metric point of an answer.
#[derive(Debug)]
pub struct PointEvidence {
    /// Its identity.
    pub entity: Option<EntityId>,
    /// The point.
    pub point: Arc<MetricPoint>,
    /// Its stream.
    pub stream: Arc<StreamIdentity>,
    /// How its value is shown where it is a double.
    pub double: serde_json::Value,
}

/// What the work could spend, and did.
#[derive(Debug)]
pub struct Limits {
    /// What each page could spend.
    pub budget: InvestigationBudget,
    /// What the pages spent together.
    pub chain: ChainSpend,
    /// The strategies that were run.
    pub strategy_versions: Vec<StrategyVersion>,
    /// What the store held.
    pub eviction: EvictionState,
}

/// What the pages of an investigation spent together.
#[derive(Clone, Copy, Debug, PartialEq, Eq)]
pub struct ChainSpend {
    /// How many records could be gathered.
    pub max_total_entities: u64,
    /// How many pages could be read.
    pub max_total_pages: u64,
    /// How many records were gathered.
    pub total_entities: u64,
    /// How many pages were read.
    pub total_pages: u64,
    /// How many records were examined for an identity.
    pub identity_examinations: u64,
    /// Which of these ended the investigation, if one did.
    pub stopped: Option<ChainBasis>,
}

/// What ended an investigation.
#[derive(Clone, Copy, Debug, PartialEq, Eq)]
pub enum ChainBasis {
    /// The records that could be gathered.
    TotalEntities,
    /// The pages that could be read.
    TotalPages,
}

/// What the store held.
#[derive(Clone, Copy, Debug, PartialEq, Eq)]
pub struct EvictionState {
    /// The records it held.
    pub resident_records: u64,
    /// The records that had left it.
    pub total_evictions: u64,
}

/// What each page of an investigation may spend, and all of them together.
pub proof fn an_investigation_has_the_documented_budget(
    payload_ceiling_bytes: usize,
    budget: InvestigationBudget,
    chain: ChainBudget,
)
    requires
        call_ensures(admitted_budget, (payload_ceiling_bytes,), budget),
        call_ensures(admitted_chain, (), chain),
    ensures
        time::duration_nanos(budget.deadline) == 30 * 1_000_000_000,
        budget.max_results == 1_000,
        budget.max_bytes == payload_ceiling_bytes,
        budget.max_scan == 100_000,
        budget.max_aggregation_memory == 4 * 1024 * 1024,
        chain.max_total_pages == 16,
        chain.max_total_entities == 10_000,
        chain.max_identity_examinations == 100_000,
{
}

}
