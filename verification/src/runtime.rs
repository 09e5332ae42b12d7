//! The runtime around the store: its clock, its counters, and the decisions of
//! the worker that drains the hand-off queue into the store.

use crate::engine::RecordView;
use crate::model::{AdmissionTime, EntityId, LogRecord, MetricPoint, Span, StreamIdentity};
use crate::storage::{AdmissionKey, Admitted, KeepOutcome, TelemetryStore};
use crate::time;
use std::sync::atomic::{AtomicU64, Ordering};
use std::sync::Arc;
use std::time::{Duration, Instant, SystemTime};
use vstd::prelude::*;

verus! {

/// How long an idle worker waits before it looks at the drain state again, in
/// milliseconds.
pub const PUMP_IDLE_POLL_MILLIS: u64 = 200;

/// How often the retention law is run, in seconds.
pub const RETENTION_TICK_SECS: u64 = 60;

/// How long a request body may take to arrive, in seconds.
pub const BODY_READ_TIMEOUT_SECS: u64 = 10;

/// How long the runtime drains after a stop is requested, in seconds.
pub const DRAIN_DEADLINE_SECS: u64 = 5;

/// How much larger than the payload ceiling a framed message may be.
pub const GRPC_DECODING_SLACK_BYTES: usize = 8192;

/// One export request's ceiling: 4 MiB.
pub const PAYLOAD_CEILING_BYTES: usize = 4194304;

/// The hand-off queue's ceiling: 64 MiB.
pub const QUEUE_CEILING_BYTES: usize = 67108864;

/// What the runtime is started with.
pub struct RuntimeConfig {
    /// How large one export request may be.
    pub payload_ceiling_bytes: usize,
    /// How much the hand-off queue may hold.
    pub queue_ceiling_bytes: usize,
    /// How much of request bodies may be buffered at once.
    pub inflight_body_ceiling_bytes: usize,
    /// How long a request body may take to arrive.
    pub body_read_timeout: Duration,
    /// Where admission times come from.
    pub clock: Box<dyn WallClock>,
}

impl Default for RuntimeConfig {
    /// 4 MiB a request, 64 MiB queued, as much buffered, ten seconds a body, and
    /// the system's clock.
    fn default() -> (config: RuntimeConfig)
        ensures
            config.payload_ceiling_bytes == PAYLOAD_CEILING_BYTES,
            config.queue_ceiling_bytes == QUEUE_CEILING_BYTES,
            config.inflight_body_ceiling_bytes == QUEUE_CEILING_BYTES,
            time::duration_nanos(config.body_read_timeout) == BODY_READ_TIMEOUT_SECS
                * 1_000_000_000,
            forall|nanos: u64| config.clock.may_read(nanos) == SystemWallClock.may_read(nanos),
    {
        RuntimeConfig {
            payload_ceiling_bytes: PAYLOAD_CEILING_BYTES,
            queue_ceiling_bytes: QUEUE_CEILING_BYTES,
            inflight_body_ceiling_bytes: QUEUE_CEILING_BYTES,
            body_read_timeout: Duration::from_secs(BODY_READ_TIMEOUT_SECS),
            clock: Box::new(SystemWallClock),
        }
    }
}

/// Where the runtime's time comes from. A clock may give any reading: the
/// relation below says only which readings it may give, and nothing restricts
/// it.
pub trait WallClock: Send + Sync + 'static {
    /// Whether the clock may give this reading.
    open spec fn may_read(&self, nanos: u64) -> bool {
        true
    }

    /// One reading.
    fn reading(&self) -> (time: AdmissionTime)
        ensures
            self.may_read(time@),
    ;
}

/// The system's wall clock.
#[derive(Debug, Clone, Copy, Default)]
pub struct SystemWallClock;

/// The nanoseconds of a reading: none before the epoch, and no more than fit.
pub open spec fn wall_nanos(since_epoch: Option<Duration>) -> u64 {
    match since_epoch {
        None => 0,
        Some(duration) => if time::duration_nanos(duration) <= u64::MAX {
            time::duration_nanos(duration) as u64
        } else {
            u64::MAX
        },
    }
}

/// The nanoseconds of a reading of the wall clock, given what has elapsed since
/// the epoch.
pub fn nanos_since(since_epoch: Option<Duration>) -> (nanos: u64)
    ensures
        nanos == wall_nanos(since_epoch),
{
    match since_epoch {
        None => 0,
        Some(duration) => {
            let nanos: u128 = duration.as_nanos();
            if nanos <= u64::MAX as u128 {
                nanos as u64
            } else {
                u64::MAX
            }
        },
    }
}

impl WallClock for SystemWallClock {
    open spec fn may_read(&self, nanos: u64) -> bool {
        exists|reading: SystemTime|
            nanos == wall_nanos(#[trigger] time::elapsed_since_epoch(reading))
    }

    fn reading(&self) -> (time: AdmissionTime) {
        let reading = SystemTime::now();
        let since_epoch = time::since_epoch(reading);
        assert(since_epoch == time::elapsed_since_epoch(reading));
        AdmissionTime::from_unix_nano(nanos_since(since_epoch))
    }
}

/// The admission time after `last`, where the wall clock says `reading`: the
/// reading, or one past the last, whichever is later.
pub open spec fn next_nanos(last: u64, reading: u64) -> u64 {
    if last < u64::MAX && reading < last + 1 {
        (last + 1) as u64
    } else if last == u64::MAX {
        u64::MAX
    } else {
        reading
    }
}

/// The admission time after `last`, where the wall clock says `reading`.
pub fn next_reading(last: u64, reading: u64) -> (next: u64)
    ensures
        next == next_nanos(last, reading),
{
    let past: u64 = last.saturating_add(1);
    if reading < past {
        past
    } else {
        reading
    }
}

/// `AtomicU64::fetch_update` with [`next_reading`]: replaces the last reading by
/// the next, in one step, and says which one the step found. Which that is
/// depends on the other callers of the clock.
#[verifier::external_body]
fn advance(last: &AtomicU64, reading: u64) -> u64 {
    match last.fetch_update(Ordering::Relaxed, Ordering::Relaxed, |last| {
        Some(next_reading(last, reading))
    }) {
        Ok(found) => found,
        Err(found) => found,
    }
}

/// The runtime's clock: wall-clock readings, made to increase.
pub struct AdmissionClock<C: WallClock + ?Sized> {
    last: AtomicU64,
    source: Box<C>,
}

impl<C: WallClock + ?Sized> AdmissionClock<C> {
    /// Whether the wall clock behind this clock may give this reading.
    pub closed spec fn may_read(&self, nanos: u64) -> bool {
        self.source.may_read(nanos)
    }

    /// A clock over `source`.
    #[must_use]
    pub fn new(source: Box<C>) -> (clock: AdmissionClock<C>)
        ensures
            forall|nanos: u64| clock.may_read(nanos) == source.may_read(nanos),
            clock.fresh(),
    {
        let counter = AtomicU64::new;
        AdmissionClock { last: counter(0), source }
    }

    /// Whether the time that this clock counts from is one that `AtomicU64::new`
    /// makes of the epoch.
    pub closed spec fn fresh(&self) -> bool {
        call_ensures(AtomicU64::new, (0u64,), self.last)
    }

    /// Whether a step of [`advance`] on the last time that this clock handed
    /// out, with this reading, may find it to be `last`.
    pub closed spec fn may_advance(&self, reading: u64, last: u64) -> bool {
        call_ensures(advance, (&self.last, reading), last)
    }

    /// The next admission time: the wall clock's reading, or one past the last
    /// time handed out, whichever is later.
    #[must_use]
    pub fn now(&self) -> (time: AdmissionTime)
        ensures
            exists|last: u64, reading: u64|
                {
                    &&& self.may_read(reading)
                    &&& self.may_advance(reading, last)
                    &&& time@ == #[trigger] next_nanos(last, reading)
                },
    {
        let reading: u64 = self.source.reading().as_unix_nano();
        let last: u64 = advance(&self.last, reading);
        let next: u64 = next_reading(last, reading);
        assert(self.may_read(reading) && self.may_advance(reading, last));
        assert(next == next_nanos(last, reading));
        AdmissionTime::from_unix_nano(next)
    }
}

/// The admission times that wall-clock readings give, one after the other,
/// from `last` on.
pub open spec fn admission_times(last: u64, readings: Seq<u64>) -> Seq<u64>
    decreases readings.len(),
{
    if readings.len() == 0 {
        Seq::empty()
    } else {
        let before = admission_times(last, readings.drop_last());
        before.push(
            next_nanos(
                if before.len() == 0 {
                    last
                } else {
                    before.last()
                },
                readings.last(),
            ),
        )
    }
}

/// Admission times never step back, and never repeat before the last that can
/// be counted: whatever the wall clock says, each is later than the one before.
/// None is earlier than its reading.
pub proof fn admission_times_increase(last: u64, readings: Seq<u64>, i: int, j: int)
    requires
        0 <= i < j < readings.len(),
    ensures
        admission_times(last, readings).len() == readings.len(),
        admission_times(last, readings)[i] < u64::MAX ==> admission_times(last, readings)[i]
            < admission_times(last, readings)[j],
        admission_times(last, readings)[i] <= admission_times(last, readings)[j],
        admission_times(last, readings)[j] >= readings[j],
    decreases readings.len(),
{
    admission_times_are_as_many(last, readings);
    let shorter = readings.drop_last();
    admission_times_are_as_many(last, shorter);
    if j < shorter.len() {
        admission_times_increase(last, shorter, i, j);
    } else if i < shorter.len() - 1 {
        admission_times_increase(last, shorter, i, shorter.len() - 1);
    }
}

proof fn admission_times_are_as_many(last: u64, readings: Seq<u64>)
    ensures
        admission_times(last, readings).len() == readings.len(),
    decreases readings.len(),
{
    if readings.len() > 0 {
        admission_times_are_as_many(last, readings.drop_last());
    }
}

/// What one outcome adds to the counters.
#[derive(Clone, Copy, Debug, PartialEq, Eq)]
pub struct Tally {
    /// Records that became resident.
    pub kept: u64,
    /// Records evicted to make room.
    pub evicted_on_keep: u64,
    /// Records refused as duplicates.
    pub duplicates: u64,
    /// Records refused as too large.
    pub oversized_refusals: u64,
    /// Records refused for want of a stream slot.
    pub series_cap_refusals: u64,
    /// Records refused for their stream's size.
    pub identity_over_ceiling_refusals: u64,
}

/// What one outcome adds to the counters: one under its own name, and the
/// records it evicted.
pub open spec fn tally(outcome: KeepOutcome) -> Tally {
    let none = Tally {
        kept: 0,
        evicted_on_keep: 0,
        duplicates: 0,
        oversized_refusals: 0,
        series_cap_refusals: 0,
        identity_over_ceiling_refusals: 0,
    };
    match outcome {
        KeepOutcome::Kept { evicted } => Tally { kept: 1, evicted_on_keep: evicted, ..none },
        KeepOutcome::Duplicate => Tally { duplicates: 1, ..none },
        KeepOutcome::Oversized => Tally { oversized_refusals: 1, ..none },
        KeepOutcome::SeriesCapReached => Tally { series_cap_refusals: 1, ..none },
        KeepOutcome::IdentityOverCeiling { .. } => Tally {
            identity_over_ceiling_refusals: 1,
            ..none
        },
    }
}

/// What one outcome adds to the counters.
pub fn tally_of(outcome: &KeepOutcome) -> (added: Tally)
    ensures
        added == tally(*outcome),
{
    let mut added = Tally {
        kept: 0,
        evicted_on_keep: 0,
        duplicates: 0,
        oversized_refusals: 0,
        series_cap_refusals: 0,
        identity_over_ceiling_refusals: 0,
    };
    match outcome {
        KeepOutcome::Kept { evicted } => {
            added.kept = 1;
            added.evicted_on_keep = *evicted;
        },
        KeepOutcome::Duplicate => {
            added.duplicates = 1;
        },
        KeepOutcome::Oversized => {
            added.oversized_refusals = 1;
        },
        KeepOutcome::SeriesCapReached => {
            added.series_cap_refusals = 1;
        },
        KeepOutcome::IdentityOverCeiling { .. } => {
            added.identity_over_ceiling_refusals = 1;
        },
    }
    added
}

/// Every outcome is counted once, under one name.
pub proof fn every_outcome_is_counted_once(outcome: KeepOutcome)
    ensures
        ({
            let added = tally(outcome);
            added.kept + added.duplicates + added.oversized_refusals + added.series_cap_refusals
                + added.identity_over_ceiling_refusals == 1
        }),
        tally(outcome).evicted_on_keep > 0 ==> outcome is Kept,
{
}

/// The counters of the worker that keeps records. Several threads read and add
/// to them.
#[derive(Debug)]
pub struct PumpCounters {
    kept: AtomicU64,
    evicted_on_keep: AtomicU64,
    duplicates: AtomicU64,
    oversized_refusals: AtomicU64,
    series_cap_refusals: AtomicU64,
    identity_over_ceiling_refusals: AtomicU64,
    dropped_on_drain: AtomicU64,
}

/// A reading of the counters.
#[derive(Clone, Copy, Debug, Default, PartialEq, Eq)]
pub struct RunSummary {
    /// Records that became resident.
    pub kept: u64,
    /// Records evicted to make room.
    pub evicted_on_keep: u64,
    /// Records refused as duplicates.
    pub duplicates: u64,
    /// Records refused as too large.
    pub oversized_refusals: u64,
    /// Records refused for want of a stream slot.
    pub series_cap_refusals: u64,
    /// Records refused for their stream's size.
    pub identity_over_ceiling_refusals: u64,
    /// Outcomes without a name of their own: there are none.
    pub unknown_outcomes: u64,
    /// Records still queued when the drain ended.
    pub dropped_on_drain: u64,
    /// Refused records whose identity was ended.
    pub refused_forwards: u64,
}

impl Default for PumpCounters {
    /// Counters that have counted nothing.
    fn default() -> (counters: PumpCounters)
        ensures
            counters.fresh(),
    {
        let counter = AtomicU64::new;
        PumpCounters {
            kept: counter(0),
            evicted_on_keep: counter(0),
            duplicates: counter(0),
            oversized_refusals: counter(0),
            series_cap_refusals: counter(0),
            identity_over_ceiling_refusals: counter(0),
            dropped_on_drain: counter(0),
        }
    }
}

impl PumpCounters {
    /// Whether each counter is one that `AtomicU64::new` makes of nothing
    /// counted.
    pub closed spec fn fresh(self) -> bool {
        &&& call_ensures(AtomicU64::new, (0u64,), self.kept)
        &&& call_ensures(AtomicU64::new, (0u64,), self.evicted_on_keep)
        &&& call_ensures(AtomicU64::new, (0u64,), self.duplicates)
        &&& call_ensures(AtomicU64::new, (0u64,), self.oversized_refusals)
        &&& call_ensures(AtomicU64::new, (0u64,), self.series_cap_refusals)
        &&& call_ensures(AtomicU64::new, (0u64,), self.identity_over_ceiling_refusals)
        &&& call_ensures(AtomicU64::new, (0u64,), self.dropped_on_drain)
    }

    /// Whether adding this to the counters, each by one `AtomicU64::fetch_add`,
    /// may find them at these totals.
    pub closed spec fn may_count(self, added: Tally, found: Tally) -> bool {
        &&& call_ensures(
            AtomicU64::fetch_add,
            (&self.kept, added.kept, Ordering::Relaxed),
            found.kept,
        )
        &&& call_ensures(
            AtomicU64::fetch_add,
            (&self.evicted_on_keep, added.evicted_on_keep, Ordering::Relaxed),
            found.evicted_on_keep,
        )
        &&& call_ensures(
            AtomicU64::fetch_add,
            (&self.duplicates, added.duplicates, Ordering::Relaxed),
            found.duplicates,
        )
        &&& call_ensures(
            AtomicU64::fetch_add,
            (&self.oversized_refusals, added.oversized_refusals, Ordering::Relaxed),
            found.oversized_refusals,
        )
        &&& call_ensures(
            AtomicU64::fetch_add,
            (&self.series_cap_refusals, added.series_cap_refusals, Ordering::Relaxed),
            found.series_cap_refusals,
        )
        &&& call_ensures(
            AtomicU64::fetch_add,
            (&self.identity_over_ceiling_refusals, added.identity_over_ceiling_refusals, Ordering::Relaxed),
            found.identity_over_ceiling_refusals,
        )
    }

    /// Whether adding this to the count of dropped records, by one
    /// `AtomicU64::fetch_add`, may find this total.
    pub closed spec fn may_count_dropped(self, dropped: u64, found: u64) -> bool {
        call_ensures(
            AtomicU64::fetch_add,
            (&self.dropped_on_drain, dropped, Ordering::Relaxed),
            found,
        )
    }

    /// Whether reading the counters, each by one `AtomicU64::load`, may find the
    /// totals of this summary.
    pub closed spec fn may_find(self, summary: RunSummary) -> bool {
        &&& call_ensures(AtomicU64::load, (&self.kept, Ordering::Relaxed), summary.kept)
        &&& call_ensures(AtomicU64::load, (&self.evicted_on_keep, Ordering::Relaxed), summary.evicted_on_keep)
        &&& call_ensures(AtomicU64::load, (&self.duplicates, Ordering::Relaxed), summary.duplicates)
        &&& call_ensures(AtomicU64::load, (&self.oversized_refusals, Ordering::Relaxed), summary.oversized_refusals)
        &&& call_ensures(AtomicU64::load, (&self.series_cap_refusals, Ordering::Relaxed), summary.series_cap_refusals)
        &&& call_ensures(AtomicU64::load, (&self.identity_over_ceiling_refusals, Ordering::Relaxed), summary.identity_over_ceiling_refusals)
        &&& call_ensures(AtomicU64::load, (&self.dropped_on_drain, Ordering::Relaxed), summary.dropped_on_drain)
    }

    /// Counts one outcome: adds its tally, each part to its own counter.
    pub fn observe(&self, outcome: &KeepOutcome)
        ensures
            exists|found: Tally| self.may_count(tally(*outcome), found),
    {
        let added = tally_of(outcome);
        let count = AtomicU64::fetch_add;
        let found = Tally {
            kept: count(&self.kept, added.kept, Ordering::Relaxed),
            evicted_on_keep: count(&self.evicted_on_keep, added.evicted_on_keep, Ordering::Relaxed),
            duplicates: count(&self.duplicates, added.duplicates, Ordering::Relaxed),
            oversized_refusals: count(&self.oversized_refusals, added.oversized_refusals, Ordering::Relaxed),
            series_cap_refusals: count(&self.series_cap_refusals, added.series_cap_refusals, Ordering::Relaxed),
            identity_over_ceiling_refusals: count(&self.identity_over_ceiling_refusals, added.identity_over_ceiling_refusals, Ordering::Relaxed),
        };
        assert(self.may_count(added, found));
    }

    /// Counts the records that were still queued when the drain ended.
    pub fn observe_dropped(&self, dropped: u64)
        ensures
            exists|found: u64| self.may_count_dropped(dropped, found),
    {
        let count = AtomicU64::fetch_add;
        let found: u64 = count(&self.dropped_on_drain, dropped, Ordering::Relaxed);
        assert(self.may_count_dropped(dropped, found));
    }

    /// A reading of the counters, together with how many refused records had
    /// their identity ended.
    #[must_use]
    pub fn summary(&self, refused_forwards: u64) -> (summary: RunSummary)
        ensures
            summary.refused_forwards == refused_forwards,
            summary.unknown_outcomes == 0,
            self.may_find(summary),
    {
        let read = AtomicU64::load;
        RunSummary {
            refused_forwards,
            kept: read(&self.kept, Ordering::Relaxed),
            evicted_on_keep: read(&self.evicted_on_keep, Ordering::Relaxed),
            duplicates: read(&self.duplicates, Ordering::Relaxed),
            oversized_refusals: read(&self.oversized_refusals, Ordering::Relaxed),
            series_cap_refusals: read(&self.series_cap_refusals, Ordering::Relaxed),
            identity_over_ceiling_refusals: read(&self.identity_over_ceiling_refusals, Ordering::Relaxed),
            unknown_outcomes: 0,
            dropped_on_drain: read(&self.dropped_on_drain, Ordering::Relaxed),
        }
    }
}

/// A counter's total after this was added to it: `AtomicU64::fetch_add` starts
/// over past the largest number.
pub open spec fn grown(found: u64, added: u64) -> u64 {
    if found + added <= u64::MAX {
        (found + added) as u64
    } else {
        (found + added - u64::MAX - 1) as u64
    }
}

/// The totals after a tally was added to them.
pub open spec fn grown_by(found: Tally, added: Tally) -> Tally {
    Tally {
        kept: grown(found.kept, added.kept),
        evicted_on_keep: grown(found.evicted_on_keep, added.evicted_on_keep),
        duplicates: grown(found.duplicates, added.duplicates),
        oversized_refusals: grown(found.oversized_refusals, added.oversized_refusals),
        series_cap_refusals: grown(found.series_cap_refusals, added.series_cap_refusals),
        identity_over_ceiling_refusals: grown(found.identity_over_ceiling_refusals, added.identity_over_ceiling_refusals),
    }
}

/// The totals after one outcome more: its own counter is one larger, and if the
/// record was kept, that of evictions by as many as were evicted.
pub open spec fn one_more(found: Tally, outcome: KeepOutcome) -> Tally {
    match outcome {
        KeepOutcome::Kept { evicted } => Tally {
            kept: (found.kept + 1) as u64,
            evicted_on_keep: grown(found.evicted_on_keep, evicted),
            ..found
        },
        KeepOutcome::Duplicate => Tally { duplicates: (found.duplicates + 1) as u64, ..found },
        KeepOutcome::Oversized => Tally {
            oversized_refusals: (found.oversized_refusals + 1) as u64,
            ..found
        },
        KeepOutcome::SeriesCapReached => Tally {
            series_cap_refusals: (found.series_cap_refusals + 1) as u64,
            ..found
        },
        KeepOutcome::IdentityOverCeiling { .. } => Tally {
            identity_over_ceiling_refusals: (found.identity_over_ceiling_refusals + 1) as u64,
            ..found
        },
    }
}

/// The sum of the counters that have an outcome's name.
pub open spec fn named(totals: Tally) -> int {
    totals.kept + totals.duplicates + totals.oversized_refusals + totals.series_cap_refusals
        + totals.identity_over_ceiling_refusals
}

/// An outcome grows the counter of its own name by one, and if the record was
/// kept, that of evictions by as many as were evicted. It grows no other.
pub proof fn an_outcome_grows_its_own_counter(outcome: KeepOutcome, found: Tally)
    requires
        named(found) < u64::MAX,
    ensures
        grown_by(found, tally(outcome)) == one_more(found, outcome),
        named(one_more(found, outcome)) == named(found) + 1,
{
}

/// One call on the counters, with the totals that it found.
pub ghost enum CounterCall {
    /// `observe`.
    Observe {
        /// The outcome counted.
        outcome: KeepOutcome,
        /// The totals found.
        found: Tally,
    },
    /// `observe_dropped`.
    ObserveDropped {
        /// The records counted.
        dropped: u64,
        /// The total found.
        found: u64,
    },
    /// `summary`.
    Summary {
        /// What it returned.
        summary: RunSummary,
    },
}

/// What the counters hold.
pub ghost struct Totals {
    /// The counters of the outcomes.
    pub outcomes: Tally,
    /// The counter of the dropped records.
    pub dropped: u64,
}

/// The totals of the outcomes in a summary.
pub open spec fn outcomes_in(summary: RunSummary) -> Tally {
    Tally {
        kept: summary.kept,
        evicted_on_keep: summary.evicted_on_keep,
        duplicates: summary.duplicates,
        oversized_refusals: summary.oversized_refusals,
        series_cap_refusals: summary.series_cap_refusals,
        identity_over_ceiling_refusals: summary.identity_over_ceiling_refusals,
    }
}

/// The totals after a sequence of calls, counted from nothing.
pub open spec fn totals(calls: Seq<CounterCall>) -> Totals
    decreases calls.len(),
{
    if calls.len() == 0 {
        Totals {
            outcomes: Tally {
                kept: 0,
                evicted_on_keep: 0,
                duplicates: 0,
                oversized_refusals: 0,
                series_cap_refusals: 0,
                identity_over_ceiling_refusals: 0,
            },
            dropped: 0,
        }
    } else {
        let before = totals(calls.drop_last());
        match calls.last() {
            CounterCall::Observe { outcome, .. } => Totals {
                outcomes: grown_by(before.outcomes, tally(outcome)),
                ..before
            },
            CounterCall::ObserveDropped { dropped, .. } => Totals {
                dropped: grown(before.dropped, dropped),
                ..before
            },
            CounterCall::Summary { .. } => before,
        }
    }
}

/// How many of these calls counted an outcome.
pub open spec fn observed(calls: Seq<CounterCall>) -> nat
    decreases calls.len(),
{
    if calls.len() == 0 {
        0
    } else {
        observed(calls.drop_last()) + if calls.last() is Observe {
            1nat
        } else {
            0
        }
    }
}

/// Whether a call on the counters may go so.
pub open spec fn may_go(counters: PumpCounters, call: CounterCall) -> bool {
    match call {
        CounterCall::Observe { outcome, found } => counters.may_count(tally(outcome), found),
        CounterCall::ObserveDropped { dropped, found } => counters.may_count_dropped(
            dropped,
            found,
        ),
        CounterCall::Summary { summary } => counters.may_find(summary) && summary.unknown_outcomes
            == 0,
    }
}

/// Whether a call found these totals, as far as it looks at them.
pub open spec fn finds(call: CounterCall, totals: Totals) -> bool {
    match call {
        CounterCall::Observe { found, .. } => found == totals.outcomes,
        CounterCall::ObserveDropped { found, .. } => found == totals.dropped,
        CounterCall::Summary { summary } => outcomes_in(summary) == totals.outcomes
            && summary.dropped_on_drain == totals.dropped,
    }
}

/// Whether these are all the calls on counters since they were made, one after
/// the other: each may go so, and finds the totals that the ones before it left.
pub open spec fn in_turn(counters: PumpCounters, calls: Seq<CounterCall>) -> bool {
    &&& counters.fresh()
    &&& forall|i: int|
        0 <= i < calls.len() ==> may_go(counters, #[trigger] calls[i]) && finds(
            calls[i],
            totals(calls.take(i)),
        )
}

proof fn every_call_is_counted(calls: Seq<CounterCall>, count: int)
    requires
        0 <= count <= calls.len() <= u64::MAX,
    ensures
        observed(calls.take(count)) <= count,
        named(totals(calls.take(count)).outcomes) == observed(calls.take(count)),
    decreases count,
{
    if count > 0 {
        every_call_is_counted(calls, count - 1);
        assert(calls.take(count).drop_last() =~= calls.take(count - 1));
        assert(calls.take(count).last() == calls[count - 1]);
        if let CounterCall::Observe { outcome, .. } = calls[count - 1] {
            an_outcome_grows_its_own_counter(
                outcome,
                totals(calls.take(count - 1)).outcomes,
            );
        }
    }
}

/// The counters count every outcome once. Where these are all the calls on them,
/// one after the other, the counters of the outcomes' names add up, in every
/// summary, to how many outcomes were counted before it.
pub proof fn the_counters_count_every_outcome(
    counters: PumpCounters,
    calls: Seq<CounterCall>,
    index: int,
)
    requires
        in_turn(counters, calls),
        0 <= index < calls.len() <= u64::MAX,
        calls[index] is Summary,
    ensures
        ({
            let summary = calls[index]->summary;
            named(outcomes_in(summary)) + summary.unknown_outcomes == observed(calls.take(index))
        }),
{
    every_call_is_counted(calls, index);
}

/// A counted outcome shows in the next summary. Where a summary, an outcome and
/// another summary follow each other, the outcome's own counter is one larger in
/// the second, that of evictions by as many as were evicted, and all others are
/// as they were.
pub proof fn a_counted_outcome_shows_in_the_next_summary(
    counters: PumpCounters,
    calls: Seq<CounterCall>,
    index: int,
)
    requires
        in_turn(counters, calls),
        0 <= index < calls.len() - 2,
        calls.len() <= u64::MAX,
        calls[index] is Summary,
        calls[index + 1] is Observe,
        calls[index + 2] is Summary,
    ensures
        ({
            let before = calls[index]->summary;
            let after = calls[index + 2]->summary;
            &&& outcomes_in(after) == one_more(outcomes_in(before), calls[index + 1]->outcome)
            &&& after.dropped_on_drain == before.dropped_on_drain
            &&& after.unknown_outcomes == before.unknown_outcomes
        }),
{
    every_call_is_counted(calls, index + 1);
    assert(calls.take(index + 1).drop_last() =~= calls.take(index));
    assert(calls.take(index + 2).drop_last() =~= calls.take(index + 1));
    assert(finds(calls[index], totals(calls.take(index))));
    assert(finds(calls[index + 2], totals(calls.take(index + 2))));
    an_outcome_grows_its_own_counter(
        calls[index + 1]->outcome,
        totals(calls.take(index + 1)).outcomes,
    );
}

/// A record as the hand-off queue holds it.
#[derive(Debug)]
pub enum StoredRecord {
    /// A span.
    Span(Arc<Span>),
    /// A log record.
    Log(Arc<LogRecord>),
    /// A metric point with its stream.
    Point {
        /// The stream.
        stream: Arc<StreamIdentity>,
        /// The point.
        point: Arc<MetricPoint>,
    },
}

/// An admitted record on its way to the store.
#[derive(Debug)]
pub struct QueuedRecord {
    /// The record's identity.
    pub entity: EntityId,
    /// When it was admitted.
    pub admitted_at: AdmissionTime,
    /// The record.
    pub record: StoredRecord,
}

/// A queued record, as queries see it.
pub open spec fn queued_view(record: StoredRecord) -> RecordView {
    match record {
        StoredRecord::Span(span) => RecordView::Span(span),
        StoredRecord::Log(log) => RecordView::LogRecord(log),
        StoredRecord::Point { stream, point } => RecordView::MetricPoint { point, stream },
    }
}

/// Hands one queued record to the store, exactly as admission queued it, and
/// counts what became of it: the store is asked to keep this record, under this
/// identity and admission time, and holds afterwards what it holds then.
pub fn keep_record<S: TelemetryStore + ?Sized>(
    store: &mut S,
    counters: &PumpCounters,
    record: QueuedRecord,
) -> (outcome: KeepOutcome)
    ensures
        old(store).may_keep(
            AdmissionKey::at(record.admitted_at@, record.entity),
            queued_view(record.record),
            outcome,
            final(store).held(),
        ),
        exists|found: Tally| counters.may_count(tally(outcome), found),
{
    let entity = record.entity;
    let admitted_at = record.admitted_at;
    let outcome = match record.record {
        StoredRecord::Span(span) => store.keep_span(
            Admitted { entity, admitted_at, record: span },
        ),
        StoredRecord::Log(log) => store.keep_log_record(
            Admitted { entity, admitted_at, record: log },
        ),
        StoredRecord::Point { stream, point } => store.keep_metric_point(
            Admitted { entity, admitted_at, record: point },
            stream,
        ),
    };
    counters.observe(&outcome);
    outcome
}

/// Runs the retention law once, at `now`; says how many records left. The store
/// holds afterwards what it holds then.
pub fn retention_tick<S: TelemetryStore + ?Sized>(store: &mut S, now: AdmissionTime) -> (evicted:
    u64)
    ensures
        old(store).may_evict(now, evicted, final(store).held()),
{
    store.enforce_retention(now)
}

/// What the worker does next.
#[derive(Clone, Copy, Debug)]
pub enum PumpAction {
    /// Wait for a record for the idle period, then look at the drain state
    /// again.
    WaitIdle,
    /// Take a record that is there, or wait for one for what remains of the
    /// drain.
    Drain(Duration),
    /// Stop.
    Stop,
}

/// What the worker does next, given when the drain ends, if one has begun. A
/// drain that is over stops it before another record is taken.
pub fn pump_next(drain_deadline: Option<Instant>, now: Instant) -> (action: PumpAction)
    ensures
        match drain_deadline {
            None => action is WaitIdle,
            Some(deadline) => match time::remaining_until(deadline, now) {
                None => action is Stop,
                Some(remaining) => action == PumpAction::Drain(remaining),
            },
        },
        drain_deadline matches Some(deadline) ==> match action {
            PumpAction::Drain(remaining) => time::duration_nanos(remaining)
                == time::nanos_between(deadline, now),
            _ => time::clock_nanos(now) > time::clock_nanos(deadline),
        },
{
    match drain_deadline {
        None => PumpAction::WaitIdle,
        Some(deadline) => match deadline.checked_duration_since(now) {
            None => PumpAction::Stop,
            Some(remaining) => PumpAction::Drain(remaining),
        },
    }
}

/// What the worker does with what it got.
#[derive(Clone, Copy, Debug, PartialEq, Eq)]
pub enum PumpStep {
    /// Keep the record.
    Keep,
    /// Look at the drain state again.
    LookAgain,
    /// Stop.
    Stop,
}

/// What the worker does after it acted, with a record or without: a record is
/// kept; without one an idle worker looks again, and a draining one stops.
pub fn pump_step(action: &PumpAction, taken: bool) -> (step: PumpStep)
    ensures
        step == step_of(PumpTurn { action: *action, taken }),
{
    if taken {
        return PumpStep::Keep;
    }
    match action {
        PumpAction::WaitIdle => PumpStep::LookAgain,
        _ => PumpStep::Stop,
    }
}

/// One turn of the worker: what it set out to do, and whether it got a record.
pub ghost struct PumpTurn {
    /// What the worker set out to do.
    pub action: PumpAction,
    /// Whether it got a record.
    pub taken: bool,
}

/// What the worker does in a turn.
pub open spec fn step_of(turn: PumpTurn) -> PumpStep {
    if turn.taken {
        PumpStep::Keep
    } else if turn.action is WaitIdle {
        PumpStep::LookAgain
    } else {
        PumpStep::Stop
    }
}

/// How many records the worker took in these turns.
pub open spec fn records_taken(turns: Seq<PumpTurn>) -> nat
    decreases turns.len(),
{
    if turns.len() == 0 {
        0
    } else {
        records_taken(turns.drop_last()) + if turns.last().taken {
            1nat
        } else {
            0
        }
    }
}

/// How many records the worker handed to the store in these turns.
pub open spec fn records_handed_over(turns: Seq<PumpTurn>) -> nat
    decreases turns.len(),
{
    if turns.len() == 0 {
        0
    } else {
        records_handed_over(turns.drop_last()) + if step_of(turns.last()) is Keep {
            1nat
        } else {
            0
        }
    }
}

/// Every record that was queued is either handed to the store or still queued:
/// the worker loses none that it takes. It stops only in a drain.
pub proof fn a_queued_record_is_kept_or_left(queued: nat, turns: Seq<PumpTurn>)
    requires
        records_taken(turns) <= queued,
    ensures
        records_handed_over(turns) + (queued - records_taken(turns)) == queued,
        forall|i: int|
            0 <= i < turns.len() && step_of(#[trigger] turns[i]) is Stop
                ==> !(turns[i].action is WaitIdle),
    decreases turns.len(),
{
    if turns.len() > 0 {
        a_queued_record_is_kept_or_left(queued, turns.drop_last());
    }
}

/// When the drain ends, after a request to drain until `deadline`: the first
/// request decides.
pub fn drain_until(current: Option<Instant>, deadline: Instant) -> (ends: Instant)
    ensures
        ends == match current {
            Some(earlier) => earlier,
            None => deadline,
        },
{
    match current {
        Some(earlier) => earlier,
        None => deadline,
    }
}

/// The ceiling of a framed message: the payload ceiling and the framing slack,
/// where their sum can be counted.
pub fn grpc_decoding_ceiling(payload_ceiling_bytes: usize) -> (ceiling: Option<usize>)
    ensures
        ceiling == if payload_ceiling_bytes + GRPC_DECODING_SLACK_BYTES <= usize::MAX {
            Some((payload_ceiling_bytes + GRPC_DECODING_SLACK_BYTES) as usize)
        } else {
            None
        },
{
    payload_ceiling_bytes.checked_add(GRPC_DECODING_SLACK_BYTES)
}

/// The next admission time is the wall clock's reading where that is later than the
/// last time, and otherwise one nanosecond past the last, as long as there is one.
pub proof fn the_later_of_reading_and_last_is_next(last: u64, reading: u64, next: u64)
    requires
        call_ensures(next_reading, (last, reading), next),
    ensures
        reading > last ==> next == reading,
        reading <= last && last < u64::MAX ==> next == last + 1,
        last == u64::MAX ==> next == u64::MAX,
{
}

/// A reading of the wall clock is the nanoseconds since the epoch: none before it,
/// and no more than 64 bits hold.
pub proof fn a_reading_is_its_nanoseconds(since_epoch: Option<Duration>, nanos: u64)
    requires
        call_ensures(nanos_since, (since_epoch,), nanos),
    ensures
        match since_epoch {
            None => nanos == 0,
            Some(duration) => if time::duration_nanos(duration) <= u64::MAX {
                nanos == time::duration_nanos(duration)
            } else {
                nanos == u64::MAX
            },
        },
{
}

/// What an outcome adds: one under its own name, the evictions of a record that was
/// kept, and nothing else.
pub proof fn an_outcome_adds_one_under_its_name(outcome: KeepOutcome, added: Tally)
    requires
        call_ensures(tally_of, (&outcome,), added),
    ensures
        added.kept == if outcome is Kept {
            1u64
        } else {
            0
        },
        added.evicted_on_keep == match outcome {
            KeepOutcome::Kept { evicted } => evicted,
            _ => 0,
        },
        added.duplicates == if outcome is Duplicate {
            1u64
        } else {
            0
        },
        added.oversized_refusals == if outcome is Oversized {
            1u64
        } else {
            0
        },
        added.series_cap_refusals == if outcome is SeriesCapReached {
            1u64
        } else {
            0
        },
        added.identity_over_ceiling_refusals == if outcome is IdentityOverCeiling {
            1u64
        } else {
            0
        },
{
}

/// A queued record is what a query sees of it.
pub proof fn a_queued_record_is_what_a_query_sees(record: StoredRecord)
    ensures
        match record {
            StoredRecord::Span(span) => queued_view(record) == RecordView::Span(span),
            StoredRecord::Log(log) => queued_view(record) == RecordView::LogRecord(log),
            StoredRecord::Point { stream, point } => queued_view(record)
                == (RecordView::MetricPoint { point, stream }),
        },
{
}

/// A worker waits while no drain has begun. In a drain it goes on for what remains
/// of it, and stops once it is over.
pub proof fn a_worker_stops_once_the_drain_is_over(
    drain_deadline: Option<Instant>,
    now: Instant,
    action: PumpAction,
)
    requires
        call_ensures(pump_next, (drain_deadline, now), action),
    ensures
        action is WaitIdle <==> drain_deadline is None,
        drain_deadline matches Some(deadline) ==> match action {
            PumpAction::WaitIdle => false,
            PumpAction::Drain(remaining) => time::duration_nanos(remaining)
                == if time::clock_nanos(now) <= time::clock_nanos(deadline) {
                time::clock_nanos(deadline) - time::clock_nanos(now)
            } else {
                0
            },
            PumpAction::Stop => time::clock_nanos(now) > time::clock_nanos(deadline),
        },
{
}

/// A record that a worker got is kept. Without one, a worker that waited looks
/// again, and one in a drain stops.
pub proof fn a_worker_keeps_what_it_gets(action: PumpAction, taken: bool, step: PumpStep)
    requires
        call_ensures(pump_step, (&action, taken), step),
    ensures
        step is Keep <==> taken,
        step is LookAgain <==> !taken && action is WaitIdle,
        step is Stop <==> !taken && !(action is WaitIdle),
{
}

/// The first request to drain decides when the drain ends.
pub proof fn the_first_request_to_drain_decides(
    current: Option<Instant>,
    deadline: Instant,
    ends: Instant,
)
    requires
        call_ensures(drain_until, (current, deadline), ends),
    ensures
        current is None ==> ends == deadline,
        current is Some ==> ends == current->Some_0,
{
}

/// The documented numbers: a framed message may be 8 KiB larger than the payload, a
/// payload 4 MiB, the queue and the buffered bodies 64 MiB, a body takes ten
/// seconds, a drain five, a look at the drain state 200 milliseconds, and the
/// retention law is run each minute.
pub proof fn the_numbers_are_the_documented_ones(
    payload_ceiling_bytes: usize,
    ceiling: Option<usize>,
    config: RuntimeConfig,
)
    requires
        call_ensures(grpc_decoding_ceiling, (payload_ceiling_bytes,), ceiling),
        call_ensures(<RuntimeConfig as Default>::default, (), config),
    ensures
        ceiling is Some <==> payload_ceiling_bytes + 8 * 1024 <= usize::MAX,
        ceiling matches Some(ceiling) ==> ceiling == payload_ceiling_bytes + 8 * 1024,
        config.payload_ceiling_bytes == 4 * 1024 * 1024,
        config.queue_ceiling_bytes == 64 * 1024 * 1024,
        config.inflight_body_ceiling_bytes == 64 * 1024 * 1024,
        time::duration_nanos(config.body_read_timeout) == 10 * 1_000_000_000,
        DRAIN_DEADLINE_SECS == 5,
        PUMP_IDLE_POLL_MILLIS == 200,
        RETENTION_TICK_SECS == 60,
{
}

/// An admission time is the wall clock's reading, or one past the last time that
/// was handed out, whichever is later.
pub proof fn an_admission_time_is_a_reading_or_one_past_the_last<C: WallClock + ?Sized>(
    clock: AdmissionClock<C>,
    time: AdmissionTime,
)
    requires
        call_ensures(AdmissionClock::<C>::now, (&clock,), time),
    ensures
        exists|last: u64, reading: u64|
            {
                &&& clock.may_read(reading)
                &&& #[trigger] clock.may_advance(reading, last)
                &&& time@ >= reading
                &&& time@ > last || last == u64::MAX
                &&& time@ == reading || time@ == last + 1 || time@ == u64::MAX
            },
{
    let (last, reading) = choose|last: u64, reading: u64|
        {
            &&& clock.may_read(reading)
            &&& clock.may_advance(reading, last)
            &&& time@ == #[trigger] next_nanos(last, reading)
        };
    assert(clock.may_advance(reading, last));
}

}
