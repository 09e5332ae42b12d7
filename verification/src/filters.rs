//! Content filters: service, time range, severity and scope.
//!
//! Each signal kind has its own filter set, so a severity filter on spans or
//! metric points cannot be written down. A filter set with nothing set matches
//! every record of its kind.
//!
//! - **Service**: the record's resource carries the string attribute
//!   `service.name`, and it equals the filter's name.
//! - **Time range**: the record's own timestamp lies in `[from, to)`. A span's
//!   is its start; a log record's its event time, or failing that its
//!   observation time; a metric point's its time. A record without one lies in
//!   no range.
//! - **Severity**: a log record's severity number is at least the minimum. A
//!   record without one is outside.
//! - **Scope**: the record's scope has this name and this version; a filter
//!   without a version matches only scopes without one.

use crate::codec;
use crate::engine::{RecordView, SignalKind};
use crate::model;
use crate::model::{
    AnyValue, InstrumentationScope, LogRecord, MetricPoint, Resource, SeverityNumber,
};
use vstd::prelude::*;

verus! {

/// The canonical encoding's mark of a filter that is set.
pub const PRESENT: u8 = 1;

/// The canonical encoding's mark of a filter that is not set.
pub const ABSENT: u8 = 0;

/// Selects one service.
#[derive(Clone, Debug, PartialEq, Eq)]
pub struct ServiceFilter {
    name: String,
}

/// Selects the half-open window `[from, to)` of Unix nanoseconds.
#[derive(Clone, Copy, Debug, PartialEq, Eq)]
pub struct TimeRangeFilter {
    from: u64,
    to: u64,
}

/// Selects log records at or above a severity.
#[derive(Clone, Copy, Debug, PartialEq, Eq)]
pub struct SeverityFilter {
    minimum: SeverityNumber,
}

/// Selects one instrumentation scope.
#[derive(Clone, Debug, PartialEq, Eq)]
pub struct ScopeFilter {
    name: String,
    version: Option<String>,
}

/// The text of an optional string.
pub open spec fn text_of(text: Option<String>) -> Option<Seq<char>> {
    match text {
        Some(text) => Some(text@),
        None => None,
    }
}

/// The service that a record's resource names, if it names one.
pub open spec fn service_of(record: RecordView) -> Option<Seq<char>> {
    match model::value_under(resource_of_record(record).attributes@, "service.name"@) {
        Some(AnyValue::String(name)) => Some(name@),
        _ => None,
    }
}

/// A record's resource: a metric point's is its stream's.
pub open spec fn resource_of_record(record: RecordView) -> Resource {
    match record {
        RecordView::Span(span) => *span.resource,
        RecordView::LogRecord(log) => *log.resource,
        RecordView::MetricPoint { stream, .. } => stream.resource,
    }
}

/// A record's scope: a metric point's is its stream's.
pub open spec fn scope_of_record(record: RecordView) -> InstrumentationScope {
    match record {
        RecordView::Span(span) => *span.scope,
        RecordView::LogRecord(log) => *log.scope,
        RecordView::MetricPoint { stream, .. } => stream.scope,
    }
}

/// A record's own timestamp, if it has one.
pub open spec fn time_of(record: RecordView) -> Option<u64> {
    match record {
        RecordView::Span(span) => Some(span.start_time_unix_nano),
        RecordView::LogRecord(log) => match log.timestamp_unix_nano {
            Some(time) => Some(time),
            None => log.observed_timestamp_unix_nano,
        },
        RecordView::MetricPoint { point, .. } => Some(point.time()),
    }
}

/// A log record's severity number, if it has one.
pub open spec fn severity_of(record: RecordView) -> Option<u8> {
    match record {
        RecordView::LogRecord(log) => match log.severity_number {
            Some(severity) => Some(severity@),
            None => None,
        },
        _ => None,
    }
}

/// The encoding of a string: its length in bytes, then the bytes.
pub open spec fn text_bytes(text: Seq<char>) -> Seq<u8> {
    codec::le(vstd::utf8::encode_utf8(text).len() as u64) + vstd::utf8::encode_utf8(text)
}

fn resource_of(view: &RecordView) -> (resource: &Resource)
    ensures
        *resource == resource_of_record(*view),
{
    match view {
        RecordView::Span(span) => &span.resource,
        RecordView::LogRecord(record) => &record.resource,
        RecordView::MetricPoint { stream, .. } => &stream.resource,
    }
}

fn scope_of(view: &RecordView) -> (scope: &InstrumentationScope)
    ensures
        *scope == scope_of_record(*view),
{
    match view {
        RecordView::Span(span) => &span.scope,
        RecordView::LogRecord(record) => &record.scope,
        RecordView::MetricPoint { stream, .. } => &stream.scope,
    }
}

fn time_key_of(view: &RecordView) -> (time: Option<u64>)
    ensures
        time == time_of(*view),
{
    match view {
        RecordView::Span(span) => Some(span.start_time_unix_nano),
        RecordView::LogRecord(record) => log_time_key(record),
        RecordView::MetricPoint { point, .. } => Some(point.time_unix_nano()),
    }
}

fn log_time_key(record: &LogRecord) -> (time: Option<u64>)
    ensures
        time == match record.timestamp_unix_nano {
            Some(time) => Some(time),
            None => record.observed_timestamp_unix_nano,
        },
{
    match record.timestamp_unix_nano {
        Some(time) => Some(time),
        None => record.observed_timestamp_unix_nano,
    }
}

/// Appends the encoding of `value`.
fn push_str(bytes: &mut Vec<u8>, value: &str)
    ensures
        final(bytes)@ == old(bytes)@ + text_bytes(value@),
{
    let encoded = value.as_bytes();
    codec::push_u64(bytes, encoded.len() as u64);
    codec::push_all(bytes, encoded);
    assert(bytes@ =~= old(bytes)@ + text_bytes(value@));
}

/// The mathematical reading of a filter set of any kind: what it selects, slot
/// by slot. A set for spans or metric points selects no severity.
pub ghost struct FilterModel {
    /// The service, when one is selected.
    pub service: Option<Seq<char>>,
    /// The window `[from, to)`, when one is selected.
    pub time_range: Option<(u64, u64)>,
    /// The least severity, when one is selected.
    pub severity: Option<u8>,
    /// The scope's name and version, when one is selected.
    pub scope: Option<(Seq<char>, Option<Seq<char>>)>,
}

/// The encoding of the service slot.
pub open spec fn service_bytes(service: Option<Seq<char>>) -> Seq<u8> {
    match service {
        Some(name) => seq![PRESENT] + text_bytes(name),
        None => seq![ABSENT],
    }
}

/// The encoding of the time-range slot.
pub open spec fn time_range_bytes(time_range: Option<(u64, u64)>) -> Seq<u8> {
    match time_range {
        Some((from, to)) => seq![PRESENT] + (codec::le(from) + codec::le(to)),
        None => seq![ABSENT],
    }
}

/// The encoding of the severity slot.
pub open spec fn severity_bytes(severity: Option<u8>) -> Seq<u8> {
    match severity {
        Some(minimum) => seq![PRESENT, minimum],
        None => seq![ABSENT],
    }
}

/// The encoding of the scope slot.
pub open spec fn scope_bytes(scope: Option<(Seq<char>, Option<Seq<char>>)>) -> Seq<u8> {
    match scope {
        Some((name, version)) => seq![PRESENT] + (text_bytes(name) + service_bytes(version)),
        None => seq![ABSENT],
    }
}

impl FilterModel {
    /// The filter set that selects everything.
    pub open spec fn nothing_set() -> FilterModel {
        FilterModel { service: None, time_range: None, severity: None, scope: None }
    }

    /// Whether `record` is among those selected: every slot that is set
    /// selects it.
    pub open spec fn selects(self, record: RecordView) -> bool {
        &&& self.service matches Some(name) ==> service_of(record) == Some(name)
        &&& self.time_range matches Some(range) ==> in_window(range, time_of(record))
        &&& self.severity matches Some(minimum) ==> at_least(minimum, severity_of(record))
        &&& self.scope matches Some(scope) ==> scope == (
            scope_of_record(record).name@,
            text_of(scope_of_record(record).version),
        )
    }

    /// The canonical encoding: the slots in a fixed order. Only log records
    /// have a severity slot.
    pub open spec fn canonical(self, kind: SignalKind) -> Seq<u8> {
        service_bytes(self.service) + (time_range_bytes(self.time_range) + (if kind
            == SignalKind::LogRecords {
            severity_bytes(self.severity) + scope_bytes(self.scope)
        } else {
            scope_bytes(self.scope)
        }))
    }

    /// Whether the set can be held: its strings have a length, and only a set
    /// for log records selects a severity.
    pub open spec fn valid(self, kind: SignalKind) -> bool {
        &&& self.service matches Some(name) ==> has_length(name)
        &&& self.scope matches Some((name, version)) ==> {
            &&& has_length(name)
            &&& version matches Some(text) ==> has_length(text)
        }
        &&& kind != SignalKind::LogRecords ==> self.severity is None
    }
}

/// Whether a string's byte length fits the encoding's length field.
pub open spec fn has_length(text: Seq<char>) -> bool {
    vstd::utf8::encode_utf8(text).len() <= u64::MAX
}

/// Whether a time lies in the half-open window; no time lies in none.
pub open spec fn in_window(range: (u64, u64), time: Option<u64>) -> bool {
    time matches Some(t) && range.0 <= t < range.1
}

/// Whether a severity is at least `minimum`; no severity is below any.
pub open spec fn at_least(minimum: u8, severity: Option<u8>) -> bool {
    severity matches Some(s) && s >= minimum
}

impl ServiceFilter {
    /// The service that the filter selects.
    pub closed spec fn view(&self) -> Seq<char> {
        self.name@
    }

    /// Selects the service `name`.
    #[must_use]
    pub fn new(name: &str) -> (filter: ServiceFilter)
        ensures
            filter@ == name@,
    {
        ServiceFilter { name: name.to_owned() }
    }

    /// The service that the filter selects.
    #[must_use]
    pub fn name(&self) -> (name: &str)
        ensures
            name@ == self@,
    {
        self.name.as_str()
    }

    /// Whether the record's resource names exactly this service.
    #[must_use]
    pub fn matches(&self, record: &RecordView) -> (matches: bool)
        ensures
            matches == (service_of(*record) == Some(self@)),
    {
        let key = "service.name".to_owned();
        match resource_of(record).attributes.get(&key) {
            Some(AnyValue::String(name)) => *name == self.name,
            _ => false,
        }
    }

    /// Appends the filter's canonical encoding.
    pub fn push_canonical(&self, bytes: &mut Vec<u8>)
        ensures
            final(bytes)@ == old(bytes)@ + service_bytes(Some(self@)),
    {
        bytes.push(PRESENT);
        push_str(bytes, self.name.as_str());
        assert(bytes@ =~= old(bytes)@ + service_bytes(Some(self@)));
    }
}

impl TimeRangeFilter {
    /// The window `[from, to)` that the filter selects.
    pub closed spec fn view(&self) -> (u64, u64) {
        (self.from, self.to)
    }

    /// Selects the window `[from, to)`.
    #[must_use]
    pub fn new(from: u64, to: u64) -> (filter: TimeRangeFilter)
        ensures
            filter@ == (from, to),
    {
        TimeRangeFilter { from, to }
    }

    /// The window's inclusive start.
    #[must_use]
    pub fn from(&self) -> (from: u64)
        ensures
            from == self@.0,
    {
        self.from
    }

    /// The window's exclusive end.
    #[must_use]
    pub fn to(&self) -> (to: u64)
        ensures
            to == self@.1,
    {
        self.to
    }

    /// Whether the record's own timestamp lies in the window.
    #[must_use]
    pub fn matches(&self, record: &RecordView) -> (matches: bool)
        ensures
            matches == in_window(self@, time_of(*record)),
    {
        match time_key_of(record) {
            Some(time) => time >= self.from && time < self.to,
            None => false,
        }
    }

    /// Appends the filter's canonical encoding.
    pub fn push_canonical(&self, bytes: &mut Vec<u8>)
        ensures
            final(bytes)@ == old(bytes)@ + time_range_bytes(Some(self@)),
    {
        bytes.push(PRESENT);
        codec::push_u64(bytes, self.from);
        codec::push_u64(bytes, self.to);
        assert(bytes@ =~= old(bytes)@ + time_range_bytes(Some(self@)));
    }
}

impl SeverityFilter {
    /// The least severity that the filter selects.
    pub closed spec fn view(&self) -> u8 {
        self.minimum@
    }

    /// Selects severities from `minimum` up.
    #[must_use]
    pub fn new(minimum: SeverityNumber) -> (filter: SeverityFilter)
        ensures
            filter@ == minimum@,
    {
        SeverityFilter { minimum }
    }

    /// The least severity that the filter selects.
    #[must_use]
    pub fn minimum(&self) -> (minimum: SeverityNumber)
        ensures
            minimum@ == self@,
    {
        self.minimum
    }

    /// Whether the record has a severity, and it is at least the minimum.
    #[must_use]
    pub fn matches(&self, record: &RecordView) -> (matches: bool)
        ensures
            matches == at_least(self@, severity_of(*record)),
    {
        match record {
            RecordView::LogRecord(log) => match log.severity_number {
                Some(severity) => severity.get() >= self.minimum.get(),
                None => false,
            },
            _ => false,
        }
    }

    /// Appends the filter's canonical encoding.
    pub fn push_canonical(&self, bytes: &mut Vec<u8>)
        ensures
            final(bytes)@ == old(bytes)@ + severity_bytes(Some(self@)),
    {
        bytes.push(PRESENT);
        bytes.push(self.minimum.get());
        assert(bytes@ =~= old(bytes)@ + severity_bytes(Some(self@)));
    }
}

/// Whether two optional strings are both absent, or both present and equal.
fn same_text(a: &Option<String>, b: &Option<String>) -> (same: bool)
    ensures
        same == (text_of(*a) == text_of(*b)),
{
    match (a, b) {
        (Some(a), Some(b)) => *a == *b,
        (None, None) => true,
        _ => false,
    }
}

impl ScopeFilter {
    /// The name and version that the filter selects.
    pub closed spec fn view(&self) -> (Seq<char>, Option<Seq<char>>) {
        (self.name@, text_of(self.version))
    }

    /// Selects the scope of this name and version.
    #[must_use]
    pub fn new(name: &str, version: Option<String>) -> (filter: ScopeFilter)
        ensures
            filter@ == (name@, text_of(version)),
    {
        ScopeFilter { name: name.to_owned(), version }
    }

    /// The name that the filter selects.
    #[must_use]
    pub fn name(&self) -> (name: &str)
        ensures
            name@ == self@.0,
    {
        self.name.as_str()
    }

    /// The version that the filter selects; without one it selects scopes
    /// that were sent without one.
    #[must_use]
    pub fn version(&self) -> (version: Option<&str>)
        ensures
            match version {
                Some(text) => self@.1 == Some(text@),
                None => self@.1 is None,
            },
    {
        match &self.version {
            Some(version) => Some(version.as_str()),
            None => None,
        }
    }

    /// Whether the record's scope has exactly this name and version.
    #[must_use]
    pub fn matches(&self, record: &RecordView) -> (matches: bool)
        ensures
            matches == (self@ == (
                scope_of_record(*record).name@,
                text_of(scope_of_record(*record).version),
            )),
    {
        let scope = scope_of(record);
        scope.name == self.name && same_text(&scope.version, &self.version)
    }

    /// Appends the filter's canonical encoding.
    pub fn push_canonical(&self, bytes: &mut Vec<u8>)
        ensures
            final(bytes)@ == old(bytes)@ + scope_bytes(Some(self@)),
    {
        bytes.push(PRESENT);
        push_str(bytes, self.name.as_str());
        match &self.version {
            Some(version) => {
                bytes.push(PRESENT);
                push_str(bytes, version.as_str());
            },
            None => {
                bytes.push(ABSENT);
            },
        }
        assert(bytes@ =~= old(bytes)@ + scope_bytes(Some(self@)));
    }
}

/// What an optional service filter selects.
pub open spec fn service_slot(filter: Option<ServiceFilter>) -> Option<Seq<char>> {
    match filter {
        Some(filter) => Some(filter@),
        None => None,
    }
}

fn service_admits(filter: &Option<ServiceFilter>, record: &RecordView) -> (admits: bool)
    ensures
        admits == (*filter matches Some(filter) ==> service_of(*record) == Some(filter@)),
{
    match filter {
        Some(filter) => filter.matches(record),
        None => true,
    }
}

fn push_service(filter: &Option<ServiceFilter>, bytes: &mut Vec<u8>)
    ensures
        final(bytes)@ == old(bytes)@ + service_bytes(service_slot(*filter)),
{
    match filter {
        Some(filter) => filter.push_canonical(bytes),
        None => {
            bytes.push(ABSENT);
            assert(bytes@ =~= old(bytes)@ + service_bytes(None));
        },
    }
}

/// What an optional time-range filter selects.
pub open spec fn time_range_slot(filter: Option<TimeRangeFilter>) -> Option<(u64, u64)> {
    match filter {
        Some(filter) => Some(filter@),
        None => None,
    }
}

fn time_range_admits(filter: &Option<TimeRangeFilter>, record: &RecordView) -> (admits: bool)
    ensures
        admits == (*filter matches Some(filter) ==> in_window(filter@, time_of(*record))),
{
    match filter {
        Some(filter) => filter.matches(record),
        None => true,
    }
}

fn push_time_range(filter: &Option<TimeRangeFilter>, bytes: &mut Vec<u8>)
    ensures
        final(bytes)@ == old(bytes)@ + time_range_bytes(time_range_slot(*filter)),
{
    match filter {
        Some(filter) => filter.push_canonical(bytes),
        None => {
            bytes.push(ABSENT);
            assert(bytes@ =~= old(bytes)@ + time_range_bytes(None));
        },
    }
}

/// What an optional severity filter selects.
pub open spec fn severity_slot(filter: Option<SeverityFilter>) -> Option<u8> {
    match filter {
        Some(filter) => Some(filter@),
        None => None,
    }
}

fn severity_admits(filter: &Option<SeverityFilter>, record: &RecordView) -> (admits: bool)
    ensures
        admits == (*filter matches Some(filter) ==> at_least(filter@, severity_of(*record))),
{
    match filter {
        Some(filter) => filter.matches(record),
        None => true,
    }
}

fn push_severity(filter: &Option<SeverityFilter>, bytes: &mut Vec<u8>)
    ensures
        final(bytes)@ == old(bytes)@ + severity_bytes(severity_slot(*filter)),
{
    match filter {
        Some(filter) => filter.push_canonical(bytes),
        None => {
            bytes.push(ABSENT);
            assert(bytes@ =~= old(bytes)@ + severity_bytes(None));
        },
    }
}

/// What an optional scope filter selects.
pub open spec fn scope_slot(filter: Option<ScopeFilter>) -> Option<(Seq<char>, Option<Seq<char>>)> {
    match filter {
        Some(filter) => Some(filter@),
        None => None,
    }
}

fn scope_admits(filter: &Option<ScopeFilter>, record: &RecordView) -> (admits: bool)
    ensures
        admits == (*filter matches Some(filter) ==> filter@ == (
            scope_of_record(*record).name@,
            text_of(scope_of_record(*record).version),
        )),
{
    match filter {
        Some(filter) => filter.matches(record),
        None => true,
    }
}

fn push_scope(filter: &Option<ScopeFilter>, bytes: &mut Vec<u8>)
    ensures
        final(bytes)@ == old(bytes)@ + scope_bytes(scope_slot(*filter)),
{
    match filter {
        Some(filter) => filter.push_canonical(bytes),
        None => {
            bytes.push(ABSENT);
            assert(bytes@ =~= old(bytes)@ + scope_bytes(None));
        },
    }
}

/// Filters on spans.
#[derive(Clone, Debug, PartialEq, Eq)]
pub struct SpanFilters {
    /// The service filter, when set.
    pub service: Option<ServiceFilter>,
    /// The time-range filter, when set.
    pub time_range: Option<TimeRangeFilter>,
    /// The scope filter, when set.
    pub scope: Option<ScopeFilter>,
}

impl View for SpanFilters {
    type V = FilterModel;

    open spec fn view(&self) -> FilterModel {
        FilterModel {
            service: service_slot(self.service),
            time_range: time_range_slot(self.time_range),
            severity: None,
            scope: scope_slot(self.scope),
        }
    }
}

impl SpanFilters {
    /// The filter set with nothing set.
    #[must_use]
    pub fn all_none() -> (filters: SpanFilters)
        ensures
            filters@ == FilterModel::nothing_set(),
    {
        SpanFilters { service: None, time_range: None, scope: None }
    }

    /// Whether every filter that is set selects the record.
    #[must_use]
    pub fn matches(&self, view: &RecordView) -> (matches: bool)
        ensures
            matches == self@.selects(*view),
    {
        service_admits(&self.service, view) && time_range_admits(&self.time_range, view)
            && scope_admits(&self.scope, view)
    }

    /// Appends the set's canonical encoding.
    pub fn push_canonical(&self, bytes: &mut Vec<u8>)
        ensures
            final(bytes)@ == old(bytes)@ + self@.canonical(SignalKind::Spans),
    {
        push_service(&self.service, bytes);
        push_time_range(&self.time_range, bytes);
        push_scope(&self.scope, bytes);
        assert(bytes@ =~= old(bytes)@ + self@.canonical(SignalKind::Spans));
    }
}

/// Filters on log records.
#[derive(Clone, Debug, PartialEq, Eq)]
pub struct LogFilters {
    /// The service filter, when set.
    pub service: Option<ServiceFilter>,
    /// The time-range filter, when set.
    pub time_range: Option<TimeRangeFilter>,
    /// The severity filter, when set.
    pub severity: Option<SeverityFilter>,
    /// The scope filter, when set.
    pub scope: Option<ScopeFilter>,
}

impl View for LogFilters {
    type V = FilterModel;

    open spec fn view(&self) -> FilterModel {
        FilterModel {
            service: service_slot(self.service),
            time_range: time_range_slot(self.time_range),
            severity: severity_slot(self.severity),
            scope: scope_slot(self.scope),
        }
    }
}

impl LogFilters {
    /// The filter set with nothing set.
    #[must_use]
    pub fn all_none() -> (filters: LogFilters)
        ensures
            filters@ == FilterModel::nothing_set(),
    {
        LogFilters { service: None, time_range: None, severity: None, scope: None }
    }

    /// Whether every filter that is set selects the record.
    #[must_use]
    pub fn matches(&self, view: &RecordView) -> (matches: bool)
        ensures
            matches == self@.selects(*view),
    {
        service_admits(&self.service, view) && time_range_admits(&self.time_range, view)
            && severity_admits(&self.severity, view) && scope_admits(&self.scope, view)
    }

    /// Appends the set's canonical encoding.
    pub fn push_canonical(&self, bytes: &mut Vec<u8>)
        ensures
            final(bytes)@ == old(bytes)@ + self@.canonical(SignalKind::LogRecords),
    {
        push_service(&self.service, bytes);
        push_time_range(&self.time_range, bytes);
        push_severity(&self.severity, bytes);
        push_scope(&self.scope, bytes);
        assert(bytes@ =~= old(bytes)@ + self@.canonical(SignalKind::LogRecords));
    }
}

/// Filters on metric points: service and scope are those of the stream.
#[derive(Clone, Debug, PartialEq, Eq)]
pub struct MetricFilters {
    /// The service filter, when set.
    pub service: Option<ServiceFilter>,
    /// The time-range filter, when set.
    pub time_range: Option<TimeRangeFilter>,
    /// The scope filter, when set.
    pub scope: Option<ScopeFilter>,
}

impl View for MetricFilters {
    type V = FilterModel;

    open spec fn view(&self) -> FilterModel {
        FilterModel {
            service: service_slot(self.service),
            time_range: time_range_slot(self.time_range),
            severity: None,
            scope: scope_slot(self.scope),
        }
    }
}

impl MetricFilters {
    /// The filter set with nothing set.
    #[must_use]
    pub fn all_none() -> (filters: MetricFilters)
        ensures
            filters@ == FilterModel::nothing_set(),
    {
        MetricFilters { service: None, time_range: None, scope: None }
    }

    /// Whether every filter that is set selects the record.
    #[must_use]
    pub fn matches(&self, view: &RecordView) -> (matches: bool)
        ensures
            matches == self@.selects(*view),
    {
        service_admits(&self.service, view) && time_range_admits(&self.time_range, view)
            && scope_admits(&self.scope, view)
    }

    /// Appends the set's canonical encoding.
    pub fn push_canonical(&self, bytes: &mut Vec<u8>)
        ensures
            final(bytes)@ == old(bytes)@ + self@.canonical(SignalKind::MetricPoints),
    {
        push_service(&self.service, bytes);
        push_time_range(&self.time_range, bytes);
        push_scope(&self.scope, bytes);
        assert(bytes@ =~= old(bytes)@ + self@.canonical(SignalKind::MetricPoints));
    }
}

/// The filter set of a query, for its kind.
#[derive(Clone, Debug, PartialEq, Eq)]
pub enum RecordsFilters {
    /// Filters on spans.
    Spans(SpanFilters),
    /// Filters on log records.
    LogRecords(LogFilters),
    /// Filters on metric points.
    MetricPoints(MetricFilters),
}

/// The kind of a record.
pub open spec fn kind_of(record: RecordView) -> SignalKind {
    match record {
        RecordView::Span(_) => SignalKind::Spans,
        RecordView::LogRecord(_) => SignalKind::LogRecords,
        RecordView::MetricPoint { .. } => SignalKind::MetricPoints,
    }
}

impl View for RecordsFilters {
    type V = FilterModel;

    open spec fn view(&self) -> FilterModel {
        match self {
            RecordsFilters::Spans(filters) => filters@,
            RecordsFilters::LogRecords(filters) => filters@,
            RecordsFilters::MetricPoints(filters) => filters@,
        }
    }
}

impl RecordsFilters {
    /// The kind that the set filters.
    pub open spec fn kind(self) -> SignalKind {
        match self {
            RecordsFilters::Spans(_) => SignalKind::Spans,
            RecordsFilters::LogRecords(_) => SignalKind::LogRecords,
            RecordsFilters::MetricPoints(_) => SignalKind::MetricPoints,
        }
    }

    /// The kind that the set filters.
    #[must_use]
    pub fn signal_kind(&self) -> (kind: SignalKind)
        ensures
            kind == self.kind(),
    {
        match self {
            RecordsFilters::Spans(_) => SignalKind::Spans,
            RecordsFilters::LogRecords(_) => SignalKind::LogRecords,
            RecordsFilters::MetricPoints(_) => SignalKind::MetricPoints,
        }
    }

    /// Whether the set selects the record. A set says nothing of another
    /// kind's records, and so does not leave them out.
    #[must_use]
    pub fn matches(&self, view: &RecordView) -> (matches: bool)
        ensures
            matches == selected(self.kind(), self@, *view),
    {
        match (self, view) {
            (RecordsFilters::Spans(filters), RecordView::Span(_)) => filters.matches(view),
            (RecordsFilters::LogRecords(filters), RecordView::LogRecord(_)) => filters.matches(
                view,
            ),
            (RecordsFilters::MetricPoints(filters), RecordView::MetricPoint { .. }) =>
                filters.matches(view),
            _ => true,
        }
    }

    /// Appends the set's canonical encoding.
    pub fn push_canonical(&self, bytes: &mut Vec<u8>)
        ensures
            final(bytes)@ == old(bytes)@ + self@.canonical(self.kind()),
    {
        match self {
            RecordsFilters::Spans(filters) => filters.push_canonical(bytes),
            RecordsFilters::LogRecords(filters) => filters.push_canonical(bytes),
            RecordsFilters::MetricPoints(filters) => filters.push_canonical(bytes),
        }
    }
}

/// Whether a filter set for `kind` selects `record`: it does not leave out
/// records of other kinds.
pub open spec fn selected(kind: SignalKind, filters: FilterModel, record: RecordView) -> bool {
    kind_of(record) == kind ==> filters.selects(record)
}

/// A filter set with nothing set selects every record.
pub proof fn nothing_set_selects_everything(kind: SignalKind, record: RecordView)
    ensures
        FilterModel::nothing_set().selects(record),
        selected(kind, FilterModel::nothing_set(), record),
{
}

proof fn text_bytes_are_prefix_free(a: Seq<char>, x: Seq<u8>, b: Seq<char>, y: Seq<u8>)
    requires
        has_length(a),
        has_length(b),
        text_bytes(a) + x == text_bytes(b) + y,
    ensures
        a == b,
        x == y,
{
    let ea = vstd::utf8::encode_utf8(a);
    let eb = vstd::utf8::encode_utf8(b);
    codec::le_is_the_number(ea.len() as u64, eb.len() as u64);
    codec::le_is_the_number(eb.len() as u64, ea.len() as u64);
    assert(text_bytes(a) + x =~= codec::le(ea.len() as u64) + (ea + x));
    assert(text_bytes(b) + y =~= codec::le(eb.len() as u64) + (eb + y));
    codec::heads_and_tails(
        codec::le(ea.len() as u64),
        ea + x,
        codec::le(eb.len() as u64),
        eb + y,
    );
    codec::heads_and_tails(ea, x, eb, y);
    vstd::utf8::encode_utf8_decode_utf8(a);
    vstd::utf8::encode_utf8_decode_utf8(b);
}

proof fn service_bytes_are_prefix_free(
    a: Option<Seq<char>>,
    x: Seq<u8>,
    b: Option<Seq<char>>,
    y: Seq<u8>,
)
    requires
        a matches Some(text) ==> has_length(text),
        b matches Some(text) ==> has_length(text),
        service_bytes(a) + x == service_bytes(b) + y,
    ensures
        a == b,
        x == y,
{
    assert((service_bytes(a) + x)[0] == service_bytes(a)[0]);
    assert((service_bytes(b) + y)[0] == service_bytes(b)[0]);
    match (a, b) {
        (Some(ta), Some(tb)) => {
            assert(service_bytes(a) + x =~= seq![PRESENT] + (text_bytes(ta) + x));
            assert(service_bytes(b) + y =~= seq![PRESENT] + (text_bytes(tb) + y));
            codec::heads_and_tails(
                seq![PRESENT],
                text_bytes(ta) + x,
                seq![PRESENT],
                text_bytes(tb) + y,
            );
            text_bytes_are_prefix_free(ta, x, tb, y);
        },
        (None, None) => {
            codec::heads_and_tails(seq![ABSENT], x, seq![ABSENT], y);
        },
        _ => {},
    }
}

proof fn time_range_bytes_are_prefix_free(
    a: Option<(u64, u64)>,
    x: Seq<u8>,
    b: Option<(u64, u64)>,
    y: Seq<u8>,
)
    requires
        time_range_bytes(a) + x == time_range_bytes(b) + y,
    ensures
        a == b,
        x == y,
{
    assert((time_range_bytes(a) + x)[0] == time_range_bytes(a)[0]);
    assert((time_range_bytes(b) + y)[0] == time_range_bytes(b)[0]);
    match (a, b) {
        (Some((fa, ta)), Some((fb, tb))) => {
            codec::le_is_the_number(fa, fb);
            codec::le_is_the_number(fb, fa);
            codec::le_is_the_number(ta, tb);
            codec::le_is_the_number(tb, ta);
            codec::heads_and_tails(time_range_bytes(a), x, time_range_bytes(b), y);
            codec::heads_and_tails(
                seq![PRESENT],
                codec::le(fa) + codec::le(ta),
                seq![PRESENT],
                codec::le(fb) + codec::le(tb),
            );
            codec::heads_and_tails(codec::le(fa), codec::le(ta), codec::le(fb), codec::le(tb));
        },
        (None, None) => {
            codec::heads_and_tails(seq![ABSENT], x, seq![ABSENT], y);
        },
        _ => {},
    }
}

proof fn severity_bytes_are_prefix_free(a: Option<u8>, x: Seq<u8>, b: Option<u8>, y: Seq<u8>)
    requires
        severity_bytes(a) + x == severity_bytes(b) + y,
    ensures
        a == b,
        x == y,
{
    assert((severity_bytes(a) + x)[0] == severity_bytes(a)[0]);
    assert((severity_bytes(b) + y)[0] == severity_bytes(b)[0]);
    codec::heads_and_tails(severity_bytes(a), x, severity_bytes(b), y);
    if a is Some {
        assert(severity_bytes(a)[1] == severity_bytes(b)[1]);
    }
}

proof fn scope_bytes_are_injective(
    a: Option<(Seq<char>, Option<Seq<char>>)>,
    b: Option<(Seq<char>, Option<Seq<char>>)>,
)
    requires
        a matches Some((name, version)) ==> has_length(name) && (version matches Some(text)
            ==> has_length(text)),
        b matches Some((name, version)) ==> has_length(name) && (version matches Some(text)
            ==> has_length(text)),
        scope_bytes(a) == scope_bytes(b),
    ensures
        a == b,
{
    assert(scope_bytes(a)[0] == if a is Some {
        PRESENT
    } else {
        ABSENT
    });
    assert(scope_bytes(b)[0] == if b is Some {
        PRESENT
    } else {
        ABSENT
    });
    match (a, b) {
        (Some((na, va)), Some((nb, vb))) => {
            codec::heads_and_tails(
                seq![PRESENT],
                text_bytes(na) + service_bytes(va),
                seq![PRESENT],
                text_bytes(nb) + service_bytes(vb),
            );
            text_bytes_are_prefix_free(na, service_bytes(va), nb, service_bytes(vb));
            assert(service_bytes(va) + Seq::<u8>::empty() =~= service_bytes(vb)
                + Seq::<u8>::empty());
            service_bytes_are_prefix_free(va, Seq::empty(), vb, Seq::empty());
        },
        _ => {},
    }
}

/// Two filter sets of one kind with one canonical encoding select the same:
/// no string content can impersonate another set.
pub proof fn canonical_encoding_is_injective(kind: SignalKind, a: FilterModel, b: FilterModel)
    requires
        a.valid(kind),
        b.valid(kind),
        a.canonical(kind) == b.canonical(kind),
    ensures
        a == b,
{
    let ra = if kind == SignalKind::LogRecords {
        severity_bytes(a.severity) + scope_bytes(a.scope)
    } else {
        scope_bytes(a.scope)
    };
    let rb = if kind == SignalKind::LogRecords {
        severity_bytes(b.severity) + scope_bytes(b.scope)
    } else {
        scope_bytes(b.scope)
    };
    service_bytes_are_prefix_free(
        a.service,
        time_range_bytes(a.time_range) + ra,
        b.service,
        time_range_bytes(b.time_range) + rb,
    );
    time_range_bytes_are_prefix_free(a.time_range, ra, b.time_range, rb);
    if kind == SignalKind::LogRecords {
        severity_bytes_are_prefix_free(
            a.severity,
            scope_bytes(a.scope),
            b.severity,
            scope_bytes(b.scope),
        );
    }
    scope_bytes_are_injective(a.scope, b.scope);
}

/// Whether these are the attributes of the resource that a record came from: a
/// span's and a log record's own, and a metric point's stream's.
pub open spec fn came_with(record: RecordView, attributes: Seq<(String, AnyValue)>) -> bool {
    match record {
        RecordView::Span(span) => span.resource.attributes@ == attributes,
        RecordView::LogRecord(log) => log.resource.attributes@ == attributes,
        RecordView::MetricPoint { stream, .. } => stream.resource.attributes@ == attributes,
    }
}

/// A service filter goes by the attribute `service.name` of the resource that a
/// record of any kind came from: the record is selected exactly where that
/// attribute is a string and the filter's own.
pub proof fn a_service_filter_goes_by_the_resource(
    filter: ServiceFilter,
    record: RecordView,
    matches: bool,
    attributes: Seq<(String, AnyValue)>,
    index: int,
)
    requires
        call_ensures(ServiceFilter::matches, (&filter, &record), matches),
        came_with(record, attributes),
        0 <= index <= attributes.len(),
        forall|i: int| 0 <= i < index ==> (#[trigger] attributes[i]).0@ != "service.name"@,
        index < attributes.len() ==> attributes[index].0@ == "service.name"@,
    ensures
        index == attributes.len() ==> !matches,
        index < attributes.len() ==> match attributes[index].1 {
            AnyValue::String(name) => matches == (name@ == filter@),
            _ => !matches,
        },
{
    model::a_value_is_found_by_its_name(attributes, "service.name"@, index);
}

/// Whether this is a record's own time: a span's start, a log record's event time
/// or failing that its observation, a metric point's time, whatever its shape.
pub open spec fn happened_at(record: RecordView, time: Option<u64>) -> bool {
    match record {
        RecordView::Span(span) => time == Some(span.start_time_unix_nano),
        RecordView::LogRecord(log) => if log.timestamp_unix_nano is Some {
            time == log.timestamp_unix_nano
        } else {
            time == log.observed_timestamp_unix_nano
        },
        RecordView::MetricPoint { point, .. } => match *point {
            MetricPoint::Number(number) => time == Some(number.time_unix_nano),
            MetricPoint::Histogram(shape) => time == Some(shape.time_unix_nano),
            MetricPoint::ExponentialHistogram(shape) => time == Some(shape.time_unix_nano),
            MetricPoint::Summary(shape) => time == Some(shape.time_unix_nano),
        },
    }
}

/// A time-range filter selects a record of any kind exactly where it has a time of
/// its own, and that is not before the window's start and before its end.
pub proof fn a_time_filter_goes_by_the_records_own_time(
    from: u64,
    to: u64,
    filter: TimeRangeFilter,
    record: RecordView,
    matches: bool,
    time: Option<u64>,
)
    requires
        call_ensures(TimeRangeFilter::new, (from, to), filter),
        call_ensures(TimeRangeFilter::matches, (&filter, &record), matches),
        happened_at(record, time),
    ensures
        match time {
            Some(time) => matches == (from <= time && time < to),
            None => !matches,
        },
{
}

/// A severity filter selects log records of at least its severity, and nothing
/// without one.
pub proof fn a_severity_filter_goes_by_the_number(
    minimum: SeverityNumber,
    filter: SeverityFilter,
    record: RecordView,
    matches: bool,
)
    requires
        call_ensures(SeverityFilter::new, (minimum,), filter),
        call_ensures(SeverityFilter::matches, (&filter, &record), matches),
    ensures
        match record {
            RecordView::LogRecord(log) => match log.severity_number {
                Some(severity) => matches == (severity@ >= minimum@),
                None => !matches,
            },
            _ => !matches,
        },
{
}

/// Whether this is the scope that a record came from: a span's and a log record's
/// own, and a metric point's stream's.
pub open spec fn came_from(record: RecordView, scope: InstrumentationScope) -> bool {
    match record {
        RecordView::Span(span) => *span.scope == scope,
        RecordView::LogRecord(log) => *log.scope == scope,
        RecordView::MetricPoint { stream, .. } => stream.scope == scope,
    }
}

/// A scope filter selects a record of any kind exactly where the scope that it
/// came from has the filter's name and version; without a version it selects
/// scopes without one.
pub proof fn a_scope_filter_goes_by_name_and_version(
    name: &str,
    version: Option<String>,
    filter: ScopeFilter,
    record: RecordView,
    matches: bool,
    scope: InstrumentationScope,
)
    requires
        call_ensures(ScopeFilter::new, (name, version), filter),
        call_ensures(ScopeFilter::matches, (&filter, &record), matches),
        came_from(record, scope),
    ensures
        matches == (scope.name@ == name@ && match (scope.version, version) {
            (Some(has), Some(asked)) => has@ == asked@,
            (None, None) => true,
            _ => false,
        }),
{
}

/// A filter says what it was made of.
pub proof fn a_filter_says_what_it_was_made_of(
    name: &str,
    service: ServiceFilter,
    service_said: &str,
    from: u64,
    to: u64,
    range: TimeRangeFilter,
    range_said: (u64, u64),
    minimum: SeverityNumber,
    severity: SeverityFilter,
    severity_said: SeverityNumber,
    version: Option<String>,
    scope: ScopeFilter,
    scope_said: (&str, Option<&str>),
)
    requires
        call_ensures(ServiceFilter::new, (name,), service),
        call_ensures(ServiceFilter::name, (&service,), service_said),
        call_ensures(TimeRangeFilter::new, (from, to), range),
        call_ensures(TimeRangeFilter::from, (&range,), range_said.0),
        call_ensures(TimeRangeFilter::to, (&range,), range_said.1),
        call_ensures(SeverityFilter::new, (minimum,), severity),
        call_ensures(SeverityFilter::minimum, (&severity,), severity_said),
        call_ensures(ScopeFilter::new, (name, version), scope),
        call_ensures(ScopeFilter::name, (&scope,), scope_said.0),
        call_ensures(ScopeFilter::version, (&scope,), scope_said.1),
    ensures
        service@ == name@,
        service_said@ == name@,
        range_said == (from, to),
        severity_said@ == minimum@,
        scope_said.0@ == name@,
        match (scope_said.1, version) {
            (Some(said), Some(version)) => said@ == version@,
            (None, None) => true,
            _ => false,
        },
{
}

/// What the filters that are set say of a record, one by one.
pub ghost struct Verdicts {
    /// What the service filter says.
    pub service: bool,
    /// What the time-range filter says.
    pub time_range: bool,
    /// What the severity filter says.
    pub severity: bool,
    /// What the scope filter says.
    pub scope: bool,
}

/// Whether each filter that is set may say this of a record.
pub open spec fn may_say(
    service: Option<ServiceFilter>,
    time_range: Option<TimeRangeFilter>,
    severity: Option<SeverityFilter>,
    scope: Option<ScopeFilter>,
    record: RecordView,
    verdicts: Verdicts,
) -> bool {
    &&& service matches Some(filter) ==> call_ensures(
        ServiceFilter::matches,
        (&filter, &record),
        verdicts.service,
    )
    &&& time_range matches Some(filter) ==> call_ensures(
        TimeRangeFilter::matches,
        (&filter, &record),
        verdicts.time_range,
    )
    &&& severity matches Some(filter) ==> call_ensures(
        SeverityFilter::matches,
        (&filter, &record),
        verdicts.severity,
    )
    &&& scope matches Some(filter) ==> call_ensures(
        ScopeFilter::matches,
        (&filter, &record),
        verdicts.scope,
    )
}

/// A set of filters on spans selects a record exactly where each filter that is
/// set does.
pub proof fn span_filters_select_together(
    filters: SpanFilters,
    record: RecordView,
    verdicts: Verdicts,
    matches: bool,
)
    requires
        may_say(filters.service, filters.time_range, None, filters.scope, record, verdicts),
        call_ensures(SpanFilters::matches, (&filters, &record), matches),
    ensures
        matches == ((filters.service is Some ==> verdicts.service) && (filters.time_range is Some
            ==> verdicts.time_range) && (filters.scope is Some ==> verdicts.scope)),
{
}

/// A set of filters on log records selects a record exactly where each filter that
/// is set does.
pub proof fn log_filters_select_together(
    filters: LogFilters,
    record: RecordView,
    verdicts: Verdicts,
    matches: bool,
)
    requires
        may_say(
            filters.service,
            filters.time_range,
            filters.severity,
            filters.scope,
            record,
            verdicts,
        ),
        call_ensures(LogFilters::matches, (&filters, &record), matches),
    ensures
        matches == ((filters.service is Some ==> verdicts.service) && (filters.time_range is Some
            ==> verdicts.time_range) && (filters.severity is Some ==> verdicts.severity) && (
        filters.scope is Some ==> verdicts.scope)),
{
}

/// A set of filters on metric points selects a record exactly where each filter
/// that is set does.
pub proof fn metric_filters_select_together(
    filters: MetricFilters,
    record: RecordView,
    verdicts: Verdicts,
    matches: bool,
)
    requires
        may_say(filters.service, filters.time_range, None, filters.scope, record, verdicts),
        call_ensures(MetricFilters::matches, (&filters, &record), matches),
    ensures
        matches == ((filters.service is Some ==> verdicts.service) && (filters.time_range is Some
            ==> verdicts.time_range) && (filters.scope is Some ==> verdicts.scope)),
{
}

/// A query's filters are those of its kind: they select of that kind's records as
/// the set does, and leave out none of another kind.
pub proof fn filters_select_of_their_own_kind(
    filters: RecordsFilters,
    record: RecordView,
    matches: bool,
    by_set: bool,
)
    requires
        call_ensures(RecordsFilters::matches, (&filters, &record), matches),
        filters matches RecordsFilters::Spans(set) ==> call_ensures(
            SpanFilters::matches,
            (&set, &record),
            by_set,
        ),
        filters matches RecordsFilters::LogRecords(set) ==> call_ensures(
            LogFilters::matches,
            (&set, &record),
            by_set,
        ),
        filters matches RecordsFilters::MetricPoints(set) ==> call_ensures(
            MetricFilters::matches,
            (&set, &record),
            by_set,
        ),
    ensures
        match (filters, record) {
            (RecordsFilters::Spans(_), RecordView::Span(_)) => matches == by_set,
            (RecordsFilters::LogRecords(_), RecordView::LogRecord(_)) => matches == by_set,
            (RecordsFilters::MetricPoints(_), RecordView::MetricPoint { .. }) => matches == by_set,
            _ => matches,
        },
{
}

/// What a query selects is what its filters match, and its kind is theirs.
pub proof fn a_set_selects_what_it_matches(
    filters: RecordsFilters,
    record: RecordView,
    matches: bool,
    kind: SignalKind,
)
    requires
        call_ensures(RecordsFilters::matches, (&filters, &record), matches),
        call_ensures(RecordsFilters::signal_kind, (&filters,), kind),
    ensures
        matches == selected(kind, filters@, record),
        kind == match filters {
            RecordsFilters::Spans(_) => SignalKind::Spans,
            RecordsFilters::LogRecords(_) => SignalKind::LogRecords,
            RecordsFilters::MetricPoints(_) => SignalKind::MetricPoints,
        },
{
}

/// A set with nothing set selects every record.
pub proof fn an_empty_set_selects_everything(
    spans: SpanFilters,
    logs: LogFilters,
    points: MetricFilters,
    record: RecordView,
    matches: (bool, bool, bool),
)
    requires
        call_ensures(SpanFilters::all_none, (), spans),
        call_ensures(LogFilters::all_none, (), logs),
        call_ensures(MetricFilters::all_none, (), points),
        call_ensures(SpanFilters::matches, (&spans, &record), matches.0),
        call_ensures(LogFilters::matches, (&logs, &record), matches.1),
        call_ensures(MetricFilters::matches, (&points, &record), matches.2),
    ensures
        matches == (true, true, true),
{
}

/// The bytes that describe a set: a one and its content for each filter that is
/// set and a zero for each that is not, the service first, then the time range,
/// for log records the severity, and last the scope. A text is its length in
/// eight bytes, then its bytes.
pub proof fn a_set_is_described_filter_by_filter(kind: SignalKind, filters: FilterModel)
    ensures
        ({
            let service = match filters.service {
                Some(name) => seq![1u8] + codec::le(vstd::utf8::encode_utf8(name).len() as u64)
                    + vstd::utf8::encode_utf8(name),
                None => seq![0u8],
            };
            let time_range = match filters.time_range {
                Some((from, to)) => seq![1u8] + codec::le(from) + codec::le(to),
                None => seq![0u8],
            };
            let severity = match filters.severity {
                Some(minimum) => seq![1u8, minimum],
                None => seq![0u8],
            };
            let scope = match filters.scope {
                Some((name, version)) => seq![1u8] + codec::le(
                    vstd::utf8::encode_utf8(name).len() as u64,
                ) + vstd::utf8::encode_utf8(name) + match version {
                    Some(text) => seq![1u8] + codec::le(vstd::utf8::encode_utf8(text).len() as u64)
                        + vstd::utf8::encode_utf8(text),
                    None => seq![0u8],
                },
                None => seq![0u8],
            };
            filters.canonical(kind) == service + time_range + if kind == SignalKind::LogRecords {
                severity + scope
            } else {
                scope
            }
        }),
{
    if let Some(name) = filters.service {
        assert(service_bytes(filters.service) =~= seq![1u8] + codec::le(
            vstd::utf8::encode_utf8(name).len() as u64,
        ) + vstd::utf8::encode_utf8(name));
    }
    if let Some((from, to)) = filters.time_range {
        assert(time_range_bytes(filters.time_range) =~= seq![1u8] + codec::le(from) + codec::le(
            to,
        ));
    }
    if let Some((name, version)) = filters.scope {
        if let Some(text) = version {
            assert(service_bytes(version) =~= seq![1u8] + codec::le(
                vstd::utf8::encode_utf8(text).len() as u64,
            ) + vstd::utf8::encode_utf8(text));
        }
        assert(scope_bytes(filters.scope) =~= seq![1u8] + codec::le(
            vstd::utf8::encode_utf8(name).len() as u64,
        ) + vstd::utf8::encode_utf8(name) + service_bytes(version));
    }
    let rest = if kind == SignalKind::LogRecords {
        severity_bytes(filters.severity) + scope_bytes(filters.scope)
    } else {
        scope_bytes(filters.scope)
    };
    assert(filters.canonical(kind) =~= service_bytes(filters.service) + time_range_bytes(
        filters.time_range,
    ) + rest);
}

}
