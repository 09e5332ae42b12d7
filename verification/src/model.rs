//! The telemetry model: identities, records and the values they carry.
//!
//! Only what queries read is modelled. A record's accounted size is part of
//! the record: it is the number of evidence bytes that byte ceilings count.

use std::sync::Arc;
use vstd::prelude::*;

verus! {

/// Bytes in a trace id.
pub const TRACE_ID_LENGTH: usize = 16;

/// Bytes in a span id.
pub const SPAN_ID_LENGTH: usize = 8;

/// A serial number that is never zero.
#[derive(Clone, Copy, Debug, PartialEq, Eq, PartialOrd, Ord, Hash)]
pub struct Serial {
    value: u64,
}

impl Serial {
    #[verifier::type_invariant]
    spec fn nonzero(self) -> bool {
        self.value > 0
    }

    /// The number the serial stands for.
    pub closed spec fn view(&self) -> u64 {
        self.value
    }

    /// Wraps `value`, which must not be zero.
    pub fn new(value: u64) -> (serial: Option<Serial>)
        ensures
            serial is Some <==> value > 0,
            serial matches Some(s) ==> s@ == value,
    {
        if value > 0 {
            Some(Serial { value })
        } else {
            None
        }
    }

    /// The wrapped number.
    pub fn get(self) -> (value: u64)
        ensures
            value == self@,
            value > 0,
    {
        proof {
            use_type_invariant(&self);
        }
        self.value
    }
}

/// A trace id in wire byte order.
#[derive(Clone, Copy, Debug, PartialEq, Eq, PartialOrd, Ord, Hash)]
pub struct TraceId {
    bytes: [u8; 16],
}

impl TraceId {
    /// The id's bytes.
    pub closed spec fn view(&self) -> Seq<u8> {
        self.bytes@
    }

    /// Wraps the id's bytes.
    pub fn from_bytes(bytes: [u8; 16]) -> (id: TraceId)
        ensures
            id@ == bytes@,
    {
        TraceId { bytes }
    }

    /// The id's bytes, in wire order.
    pub fn as_bytes(&self) -> (bytes: [u8; 16])
        ensures
            bytes@ == self@,
    {
        self.bytes
    }
}

/// Two trace ids are one exactly when their bytes agree.
pub proof fn trace_id_is_its_bytes(a: TraceId, b: TraceId)
    ensures
        a@ == b@ <==> a == b,
        a@.len() == TRACE_ID_LENGTH,
{
    if a@ == b@ {
        assert(a.bytes =~= b.bytes);
    }
}

/// A span id in wire byte order.
#[derive(Clone, Copy, Debug, PartialEq, Eq, PartialOrd, Ord, Hash)]
pub struct SpanId {
    bytes: [u8; 8],
}

impl SpanId {
    /// The id's bytes.
    pub closed spec fn view(&self) -> Seq<u8> {
        self.bytes@
    }

    /// Wraps the id's bytes.
    pub fn from_bytes(bytes: [u8; 8]) -> (id: SpanId)
        ensures
            id@ == bytes@,
    {
        SpanId { bytes }
    }

    /// The id's bytes, in wire order.
    pub fn as_bytes(&self) -> (bytes: [u8; 8])
        ensures
            bytes@ == self@,
    {
        self.bytes
    }
}

/// Two span ids are one exactly when their bytes agree.
pub proof fn span_id_is_its_bytes(a: SpanId, b: SpanId)
    ensures
        a@ == b@ <==> a == b,
        a@.len() == SPAN_ID_LENGTH,
{
    if a@ == b@ {
        assert(a.bytes =~= b.bytes);
    }
}

/// An identity handed out at admission: a session serial.
#[derive(Clone, Copy, Debug, PartialEq, Eq, PartialOrd, Ord, Hash)]
pub struct AssignedId {
    serial: Serial,
}

impl AssignedId {
    /// The serial's number.
    pub closed spec fn view(&self) -> u64 {
        self.serial@
    }

    /// The id a session serial names.
    pub fn from_serial(serial: Serial) -> (id: AssignedId)
        ensures
            id@ == serial@,
    {
        AssignedId { serial }
    }

    /// The session serial behind the id.
    pub fn serial(&self) -> (serial: Serial)
        ensures
            serial@ == self@,
    {
        self.serial
    }
}

/// Two assigned ids are one exactly when their serials agree.
pub proof fn assigned_id_is_its_serial(a: AssignedId, b: AssignedId)
    ensures
        a@ == b@ <==> a == b,
{
}

/// A record's identity: a span's own wire identity, or one assigned at
/// admission to a record that carries none.
#[derive(Clone, Copy, Debug, PartialEq, Eq, PartialOrd, Ord, Hash)]
pub enum EntityId {
    /// A span's wire identity.
    Span {
        /// The trace the span belongs to.
        trace_id: TraceId,
        /// The span inside the trace.
        span_id: SpanId,
    },
    /// An identity assigned at admission.
    Assigned(AssignedId),
}

impl EntityId {
    /// Whether the identity is one that can be held: an assigned serial is
    /// never zero.
    pub open spec fn valid(self) -> bool {
        self matches EntityId::Assigned(id) ==> id@ > 0
    }
}

/// An admission reading, in nanoseconds since the Unix epoch.
#[derive(Clone, Copy, Debug, PartialEq, Eq, PartialOrd, Ord, Hash)]
pub struct AdmissionTime {
    nanos: u64,
}

impl AdmissionTime {
    /// The reading's nanoseconds.
    pub closed spec fn view(&self) -> u64 {
        self.nanos
    }

    /// The reading at `nanos`.
    pub closed spec fn at(nanos: u64) -> AdmissionTime {
        AdmissionTime { nanos }
    }

    /// The reading at `nanos`.
    pub fn from_unix_nano(nanos: u64) -> (time: AdmissionTime)
        ensures
            time@ == nanos,
            time == AdmissionTime::at(nanos),
    {
        AdmissionTime { nanos }
    }

    /// The reading's nanoseconds.
    pub fn as_unix_nano(&self) -> (nanos: u64)
        ensures
            nanos == self@,
    {
        self.nanos
    }
}

/// Two readings are one exactly when their nanoseconds agree.
pub proof fn admission_time_is_its_nanos(a: AdmissionTime, b: AdmissionTime)
    ensures
        a@ == b@ <==> a == b,
        AdmissionTime::at(a@) == a,
{
}

/// The reading made of nanoseconds has those nanoseconds.
pub proof fn admission_time_has_its_nanos(nanos: u64)
    ensures
        AdmissionTime::at(nanos)@ == nanos,
{
}

/// A log record's severity number: 1 through 24.
#[derive(Clone, Copy, Debug, PartialEq, Eq, PartialOrd, Ord, Hash)]
pub struct SeverityNumber {
    value: u8,
}

impl SeverityNumber {
    /// The severity's number.
    pub closed spec fn view(&self) -> u8 {
        self.value
    }

    /// The severity `value` names, when it is in the domain.
    pub fn try_new(value: u8) -> (severity: Option<SeverityNumber>)
        ensures
            severity is Some <==> 1 <= value <= 24,
            severity matches Some(s) ==> s@ == value,
    {
        if 1 <= value && value <= 24 {
            Some(SeverityNumber { value })
        } else {
            None
        }
    }

    /// The severity's number.
    pub fn get(self) -> (value: u8)
        ensures
            value == self@,
    {
        self.value
    }
}

/// An attribute's or a log body's value.
#[derive(Debug, PartialEq, Eq)]
pub enum AnyValue {
    /// A string.
    String(String),
    /// A signed integer.
    Int(i64),
    /// A floating-point number, by its IEEE 754 bit pattern.
    Double(u64),
    /// A boolean.
    Bool(bool),
    /// Raw bytes.
    Bytes(Vec<u8>),
    /// An array of values.
    Array(Vec<AnyValue>),
    /// A list of named values.
    KvList(Vec<(String, AnyValue)>),
}

/// An attribute set: named values, each name at most once.
#[derive(Debug, PartialEq, Eq)]
pub struct Attributes {
    pairs: Vec<(String, AnyValue)>,
}

/// The value that `pairs` holds under `key`: that of the first pair so named.
pub open spec fn value_under(pairs: Seq<(String, AnyValue)>, key: Seq<char>) -> Option<AnyValue>
    decreases pairs.len(),
{
    if pairs.len() == 0 {
        None
    } else if pairs[0].0@ == key {
        Some(pairs[0].1)
    } else {
        value_under(pairs.drop_first(), key)
    }
}

/// Whether some name occurs twice in `pairs`.
pub open spec fn names_repeat(pairs: Seq<(String, AnyValue)>) -> bool {
    exists|i: int, j: int| 0 <= i < j < pairs.len() && pairs[i].0@ == pairs[j].0@
}

impl Attributes {
    /// The named values, in the order they were given.
    pub closed spec fn view(&self) -> Seq<(String, AnyValue)> {
        self.pairs@
    }

    /// No attributes.
    pub fn empty() -> (attributes: Attributes)
        ensures
            attributes@ == Seq::<(String, AnyValue)>::empty(),
    {
        Attributes { pairs: Vec::new() }
    }

    /// The attribute set over `pairs`, unless some name occurs twice.
    pub fn from_pairs(pairs: Vec<(String, AnyValue)>) -> (attributes: Option<Attributes>)
        ensures
            attributes is None <==> names_repeat(pairs@),
            attributes matches Some(set) ==> set@ == pairs@,
    {
        let mut i: usize = 0;
        while i < pairs.len()
            invariant
                i <= pairs@.len(),
                forall|a: int, b: int|
                    0 <= a < b < pairs@.len() && a < i ==> pairs@[a].0@ != pairs@[b].0@,
            decreases pairs@.len() - i,
        {
            let mut j: usize = i + 1;
            while j < pairs.len()
                invariant
                    i < j <= pairs@.len(),
                    i < pairs@.len(),
                    forall|b: int| i < b < j ==> pairs@[i as int].0@ != pairs@[b].0@,
                decreases pairs@.len() - j,
            {
                if pairs[i].0 == pairs[j].0 {
                    assert(names_repeat(pairs@));
                    return None;
                }
                j += 1;
            }
            i += 1;
        }
        Some(Attributes { pairs })
    }

    /// The value held under `key`, if any.
    pub fn get(&self, key: &String) -> (value: Option<&AnyValue>)
        ensures
            value matches Some(v) ==> value_under(self@, key@) == Some(*v),
            value is None ==> value_under(self@, key@) is None,
    {
        let mut i: usize = 0;
        assert(self.pairs@.skip(0) =~= self.pairs@);
        while i < self.pairs.len()
            invariant
                i <= self.pairs@.len(),
                value_under(self.pairs@, key@) == value_under(self.pairs@.skip(i as int), key@),
            decreases self.pairs@.len() - i,
        {
            assert(self.pairs@.skip(i as int).drop_first() =~= self.pairs@.skip(i + 1));
            if self.pairs[i].0 == *key {
                return Some(&self.pairs[i].1);
            }
            i += 1;
        }
        None
    }
}

/// What emitted a record: the identity the emitter described itself with.
#[derive(Debug, PartialEq, Eq)]
pub struct Resource {
    /// The resource's identifying attributes.
    pub attributes: Attributes,
}

/// The instrumentation scope a record came from.
#[derive(Clone, Debug, PartialEq, Eq)]
pub struct InstrumentationScope {
    /// The scope's name.
    pub name: String,
    /// The scope's version, when it was sent with one.
    pub version: Option<String>,
}

/// The wire identity a span is sent under.
#[derive(Clone, Copy, Debug, PartialEq, Eq)]
pub struct TraceContext {
    /// The trace.
    pub trace_id: TraceId,
    /// The span inside it.
    pub span_id: SpanId,
}

/// A span.
#[derive(Debug, PartialEq, Eq)]
pub struct Span {
    /// The span's wire identity.
    pub context: TraceContext,
    /// The parent span, when the span has one.
    pub parent_span_id: Option<SpanId>,
    /// The operation's name.
    pub name: String,
    /// When the operation started, in Unix nanoseconds.
    pub start_time_unix_nano: u64,
    /// When it ended, when it has.
    pub end_time_unix_nano: Option<u64>,
    /// What emitted the span.
    pub resource: Arc<Resource>,
    /// The scope the span came from.
    pub scope: Arc<InstrumentationScope>,
    /// The span's evidence bytes.
    pub accounted_size: usize,
}

/// A log record.
#[derive(Debug, PartialEq, Eq)]
pub struct LogRecord {
    /// When the event happened, when the emitter said so.
    pub timestamp_unix_nano: Option<u64>,
    /// When the event was observed, when the emitter said so.
    pub observed_timestamp_unix_nano: Option<u64>,
    /// The record's severity, when it has one.
    pub severity_number: Option<SeverityNumber>,
    /// The record's body, when it has one.
    pub body: Option<AnyValue>,
    /// What emitted the record.
    pub resource: Arc<Resource>,
    /// The scope the record came from.
    pub scope: Arc<InstrumentationScope>,
    /// The trace the record belongs to, when it names one.
    pub trace_id: Option<TraceId>,
    /// The span the record belongs to, when it names one.
    pub span_id: Option<SpanId>,
    /// The record's evidence bytes.
    pub accounted_size: usize,
}

impl Span {
    /// The span's evidence bytes.
    pub fn accounted_size(&self) -> (size: usize)
        ensures
            size == self.accounted_size,
    {
        self.accounted_size
    }
}

impl LogRecord {
    /// The record's evidence bytes.
    pub fn accounted_size(&self) -> (size: usize)
        ensures
            size == self.accounted_size,
    {
        self.accounted_size
    }
}

/// A measured number.
#[derive(Clone, Copy, Debug, PartialEq, Eq)]
pub enum MetricNumber {
    /// A signed integer.
    Int(i64),
    /// A floating-point number, by its IEEE 754 bit pattern.
    Double(u64),
}

/// A point of one measured number.
#[derive(Clone, Copy, Debug, PartialEq, Eq)]
pub struct NumberPoint {
    /// When the measurement was taken, or its interval ended.
    pub time_unix_nano: u64,
    /// The measured number.
    pub value: MetricNumber,
    /// The point's evidence bytes.
    pub accounted_size: usize,
}

/// A point of a distribution.
#[derive(Clone, Copy, Debug, PartialEq, Eq)]
pub struct DistributionPoint {
    /// When the distribution's interval ended.
    pub time_unix_nano: u64,
    /// The point's evidence bytes.
    pub accounted_size: usize,
}

/// A metric point, in one of its four shapes.
#[derive(Clone, Copy, Debug, PartialEq, Eq)]
pub enum MetricPoint {
    /// One number.
    Number(NumberPoint),
    /// A histogram.
    Histogram(DistributionPoint),
    /// An exponential histogram.
    ExponentialHistogram(DistributionPoint),
    /// A summary.
    Summary(DistributionPoint),
}

impl MetricPoint {
    /// The point's time.
    pub open spec fn time(self) -> u64 {
        match self {
            MetricPoint::Number(point) => point.time_unix_nano,
            MetricPoint::Histogram(point) => point.time_unix_nano,
            MetricPoint::ExponentialHistogram(point) => point.time_unix_nano,
            MetricPoint::Summary(point) => point.time_unix_nano,
        }
    }

    /// The point's evidence bytes.
    pub open spec fn evidence(self) -> usize {
        match self {
            MetricPoint::Number(point) => point.accounted_size,
            MetricPoint::Histogram(point) => point.accounted_size,
            MetricPoint::ExponentialHistogram(point) => point.accounted_size,
            MetricPoint::Summary(point) => point.accounted_size,
        }
    }

    /// The point's time: every shape carries one.
    pub fn time_unix_nano(&self) -> (time: u64)
        ensures
            time == self.time(),
    {
        match self {
            MetricPoint::Number(point) => point.time_unix_nano,
            MetricPoint::Histogram(point) => point.time_unix_nano,
            MetricPoint::ExponentialHistogram(point) => point.time_unix_nano,
            MetricPoint::Summary(point) => point.time_unix_nano,
        }
    }

    /// The point's evidence bytes.
    pub fn accounted_size(&self) -> (size: usize)
        ensures
            size == self.evidence(),
    {
        match self {
            MetricPoint::Number(point) => point.accounted_size,
            MetricPoint::Histogram(point) => point.accounted_size,
            MetricPoint::ExponentialHistogram(point) => point.accounted_size,
            MetricPoint::Summary(point) => point.accounted_size,
        }
    }
}

/// The stream a metric point was admitted under.
#[derive(Debug, PartialEq, Eq)]
pub struct StreamIdentity {
    /// What emits the stream.
    pub resource: Resource,
    /// The scope the stream comes from.
    pub scope: InstrumentationScope,
    /// The metric's name.
    pub name: String,
}

/// A serial is any number but zero, a severity any from 1 to 24, and each says
/// which number it is.
pub proof fn a_number_is_held_in_its_domain(
    number: u64,
    serial: Option<Serial>,
    said: u64,
    level: u8,
    severity: Option<SeverityNumber>,
    shown: u8,
)
    requires
        call_ensures(Serial::new, (number,), serial),
        serial matches Some(serial) ==> call_ensures(Serial::get, (serial,), said),
        call_ensures(SeverityNumber::try_new, (level,), severity),
        severity matches Some(severity) ==> call_ensures(SeverityNumber::get, (severity,), shown),
    ensures
        serial is None <==> number == 0,
        serial is Some ==> said == number,
        severity is Some <==> 1 <= level <= 24,
        severity is Some ==> shown == level,
{
}

/// Ids and admission times say what they were made of.
pub proof fn an_id_says_what_it_was_made_of(
    trace: [u8; 16],
    trace_id: TraceId,
    trace_said: [u8; 16],
    span: [u8; 8],
    span_id: SpanId,
    span_said: [u8; 8],
    serial: Serial,
    assigned: AssignedId,
    serial_said: Serial,
    nanos: u64,
    time: AdmissionTime,
    nanos_said: u64,
)
    requires
        call_ensures(TraceId::from_bytes, (trace,), trace_id),
        call_ensures(TraceId::as_bytes, (&trace_id,), trace_said),
        call_ensures(SpanId::from_bytes, (span,), span_id),
        call_ensures(SpanId::as_bytes, (&span_id,), span_said),
        call_ensures(AssignedId::from_serial, (serial,), assigned),
        call_ensures(AssignedId::serial, (&assigned,), serial_said),
        call_ensures(AdmissionTime::from_unix_nano, (nanos,), time),
        call_ensures(AdmissionTime::as_unix_nano, (&time,), nanos_said),
    ensures
        trace_said@ == trace@,
        span_said@ == span@,
        serial_said@ == serial@,
        nanos_said == nanos,
{
}

/// The value under a name is that of the first pair so named, and there is none
/// where no pair is.
pub proof fn a_value_is_found_by_its_name(
    pairs: Seq<(String, AnyValue)>,
    key: Seq<char>,
    index: int,
)
    requires
        0 <= index <= pairs.len(),
        forall|i: int| 0 <= i < index ==> (#[trigger] pairs[i]).0@ != key,
    ensures
        index == pairs.len() ==> value_under(pairs, key) is None,
        index < pairs.len() && pairs[index].0@ == key ==> value_under(pairs, key) == Some(
            pairs[index].1,
        ),
    decreases pairs.len(),
{
    if index > 0 {
        assert(pairs[0].0@ != key);
        assert forall|i: int| 0 <= i < index - 1 implies (#[trigger] pairs.drop_first()[i]).0@
            != key by {
            assert(pairs[i + 1].0@ != key);
        }
        a_value_is_found_by_its_name(pairs.drop_first(), key, index - 1);
    }
}

/// An attribute set is refused exactly where a name occurs twice, and otherwise
/// gives under each name the value that it was given.
pub proof fn an_attribute_is_found_by_its_name(
    pairs: Vec<(String, AnyValue)>,
    attributes: Option<Attributes>,
    key: String,
    value: Option<&AnyValue>,
    index: int,
)
    requires
        call_ensures(Attributes::from_pairs, (pairs,), attributes),
        attributes matches Some(set) ==> call_ensures(Attributes::get, (&set, &key), value),
    ensures
        attributes is None <==> exists|i: int, j: int|
            0 <= i < j < pairs@.len() && pairs@[i].0@ == pairs@[j].0@,
        attributes is Some && 0 <= index < pairs@.len() && pairs@[index].0@ == key@ ==> value
            == Some(&pairs@[index].1),
        attributes is Some && (forall|i: int|
            0 <= i < pairs@.len() ==> (#[trigger] pairs@[i]).0@ != key@) ==> value is None,
{
    if attributes is Some {
        if 0 <= index < pairs@.len() && pairs@[index].0@ == key@ {
            assert forall|i: int| 0 <= i < index implies (#[trigger] pairs@[i]).0@ != key@ by {
                assert(!names_repeat(pairs@));
            }
            a_value_is_found_by_its_name(pairs@, key@, index);
        }
        if forall|i: int| 0 <= i < pairs@.len() ==> (#[trigger] pairs@[i]).0@ != key@ {
            a_value_is_found_by_its_name(pairs@, key@, pairs@.len() as int);
        }
    }
}

/// A metric point of any shape says its own time and its own evidence bytes; so do
/// spans and log records of theirs.
pub proof fn a_record_says_its_own_size(
    span: Span,
    span_size: usize,
    log: LogRecord,
    log_size: usize,
    point: MetricPoint,
    point_size: usize,
    time: u64,
)
    requires
        call_ensures(Span::accounted_size, (&span,), span_size),
        call_ensures(LogRecord::accounted_size, (&log,), log_size),
        call_ensures(MetricPoint::accounted_size, (&point,), point_size),
        call_ensures(MetricPoint::time_unix_nano, (&point,), time),
    ensures
        span_size == span.accounted_size,
        log_size == log.accounted_size,
        match point {
            MetricPoint::Number(number) => point_size == number.accounted_size && time
                == number.time_unix_nano,
            MetricPoint::Histogram(shape) => point_size == shape.accounted_size && time
                == shape.time_unix_nano,
            MetricPoint::ExponentialHistogram(shape) => point_size == shape.accounted_size && time
                == shape.time_unix_nano,
            MetricPoint::Summary(shape) => point_size == shape.accounted_size && time
                == shape.time_unix_nano,
        },
{
}

}
