//! What holds of every page.
//!
//! The first laws hold whatever the store and the clock say. The others are
//! about stores that follow the scan law: a scan answers the resident records
//! after a position, in the residency order, as many as were asked for, and
//! names a successor exactly when there is one.

use crate::budget::QueryBudget;
use crate::cursor::{CursorError, CursorModel};
use crate::engine::{RecordView, RecordsQuery, SignalKind, SCAN_BATCH};
use crate::filters::{FilterModel, RecordsFilters};
use crate::model::{EntityId, MetricPoint};
use crate::result::{CoverageEntry, Dimension, Page, PartModel, PointModel};
use crate::storage::{AdmissionKey, TelemetryStore, Yielded};
use crate::walk::{Pull, Readings, Verdict, WalkModel};
use crate::{budget, cursor, engine, filters, order, result, storage, walk};
use vstd::prelude::*;

verus! {

/// The evidence bytes of a sequence of records.
pub open spec fn total_evidence(records: Seq<RecordView>) -> int
    decreases records.len(),
{
    if records.len() == 0 {
        0
    } else {
        total_evidence(records.drop_last()) + walk::evidence(records.last())
    }
}

/// What a walk keeps from `start` on: its terms, what it has returned against
/// what it has spent, and where it stands.
pub open spec fn keeps(start: WalkModel, walk: WalkModel) -> bool {
    &&& walk.kind == start.kind
    &&& walk.filters == start.filters
    &&& walk.fingerprint == start.fingerprint
    &&& walk.presented == start.presented
    &&& walk.session.budget == start.session.budget
    &&& walk.session.admitted_at == start.session.admitted_at
    &&& walk.session.ledger.results.limit == start.session.ledger.results.limit
    &&& walk.session.ledger.bytes.limit == start.session.ledger.bytes.limit
    &&& walk.session.ledger.scan.limit == start.session.ledger.scan.limit
    &&& walk.session.ledger.aggregation_memory == start.session.ledger.aggregation_memory
    &&& walk.items.len() == start.session.ledger.results.remaining
        - walk.session.ledger.results.remaining
    &&& total_evidence(walk.items) == start.session.ledger.bytes.remaining
        - walk.session.ledger.bytes.remaining
    &&& walk.session.ledger.scan.remaining <= start.session.ledger.scan.remaining
    &&& forall|i: int|
        0 <= i < walk.items.len() ==> walk::of_kind(walk.kind, #[trigger] walk.items[i])
            && filters::selected(walk.kind, walk.filters, walk.items[i])
    &&& walk.last_included is Some <==> walk.items.len() > 0
    &&& walk.items.len() > 0 ==> walk.last_examined is Some
    &&& walk.last_included matches Some(key) ==> within(walk.bound(), key)
    &&& walk.last_examined matches Some(key) ==> within(walk.bound(), key)
    &&& start.presented matches Some(cursor) ==> walk.coverage.len() > 0 && walk.coverage[0] == (
    CoverageEntry::SnapshotBoundary { admission: cursor.snapshot })
    &&& walk.pending_gap is Some ==> walk.pending_gap == start.pending_gap
    &&& gap_named(walk.coverage) == if start.pending_gap != walk.pending_gap {
        start.pending_gap
    } else {
        None
    }
}

/// The entity at whose absence the coverage names a gap, if it names one.
pub open spec fn gap_named(coverage: Seq<CoverageEntry>) -> Option<EntityId>
    decreases coverage.len(),
{
    if coverage.len() == 0 {
        None
    } else if let CoverageEntry::EvictionGap { after, .. } = coverage.last() {
        Some(after)
    } else {
        gap_named(coverage.drop_last())
    }
}

/// Whether a position lies inside a boundary, if there is one.
pub open spec fn within(bound: Option<AdmissionKey>, key: AdmissionKey) -> bool {
    bound matches Some(bound) ==> !order::key_precedes(bound, key)
}

proof fn a_record_keeps(start: WalkModel, walk: WalkModel, yielded: Yielded, behind: int, readings: Readings)
    requires
        keeps(start, walk),
        walk.stopped is None,
        walk::of_kind(walk.kind, yielded.record),
    ensures
        keeps(start, walk.judged(yielded, behind, readings)),
{
    reveal(WalkModel::judged);
    let after = walk.judged(yielded, behind, readings);
    if walk.verdict(yielded, readings) is Included {
        assert(after.items.drop_last() =~= walk.items);
        assert(after.items.last() == yielded.record);
    }
    let examined = walk.examined(yielded.key, readings.scan);
    assert(examined.coverage.len() > walk.coverage.len() ==> examined.coverage.drop_last()
        =~= walk.coverage);
    assert(after.coverage.len() > walk.coverage.len() ==> after.coverage.drop_last()
        =~= walk.coverage);
}

proof fn an_end_keeps(start: WalkModel, walk: WalkModel)
    requires
        keeps(start, walk),
    ensures
        keeps(start, walk.finished()),
{
}

proof fn a_batch_keeps(start: WalkModel, walk: WalkModel, pull: Pull, count: nat)
    requires
        keeps(start, walk),
        walk.stopped is None,
        walk::all_of_kind(walk.kind, pull.records),
        count <= pull.records.len(),
    ensures
        keeps(start, walk.judged_batch(pull, count)),
    decreases count,
{
    if count > 0 {
        a_batch_keeps(start, walk, pull, (count - 1) as nat);
        let before = walk.judged_batch(pull, (count - 1) as nat);
        if before.stopped is None {
            a_record_keeps(
                start,
                before,
                pull.records[count - 1],
                pull.records.len() - count,
                pull.readings[count - 1],
            );
        }
    }
}

proof fn a_pull_keeps(start: WalkModel, walk: WalkModel, pull: Pull)
    requires
        keeps(start, walk),
        walk.stopped is None,
        walk::all_of_kind(walk.kind, pull.records),
    ensures
        keeps(start, walk.after_pull(pull)),
{
    assert(keeps(start, walk.pulled(pull)));
    a_batch_keeps(start, walk.pulled(pull), pull, pull.records.len());
    let judged = walk.pulled(pull).judged_batch(pull, pull.records.len());
    an_end_keeps(start, judged);
    let after = walk.after_pull(pull);
    assert(after.coverage.len() > judged.coverage.len() ==> after.coverage.drop_last()
        =~= judged.coverage);
}

proof fn a_walk_keeps<S: TelemetryStore + ?Sized>(
    start: WalkModel,
    store: &S,
    pulls: Seq<Pull>,
    count: nat,
)
    requires
        keeps(start, start),
        start.stopped is None,
        forall|i: int| 0 <= i < pulls.len() ==> #[trigger] start.may_pull(store, pulls, i),
        count <= pulls.len(),
    ensures
        keeps(start, start.walked(pulls.take(count as int))),
    decreases count,
{
    if count > 0 {
        let index = count - 1;
        a_walk_keeps(start, store, pulls, index as nat);
        assert(start.may_pull(store, pulls, index));
        assert(pulls.take(count as int).drop_last() =~= pulls.take(index));
        assert(pulls.take(count as int).last() == pulls[index]);
        a_pull_keeps(start, start.walked(pulls.take(index)), pulls[index]);
    }
}

proof fn a_start_keeps(
    query: engine::QueryModel,
    session: budget::SessionModel,
    presented: Option<CursorModel>,
    resident: bool,
)
    ensures
        ({
            let start = engine::walk_start(query, session, presented, resident);
            keeps(start, start)
        }),
{
    let start = engine::walk_start(query, session, presented, resident);
    reveal_with_fuel(gap_named, 2);
    if presented is Some {
        assert(start.coverage.drop_last() =~= Seq::empty());
    }
}

/// The walk behind a page: whether its anchor was resident, and its batches.
proof fn the_walk_behind<S: TelemetryStore + ?Sized>(
    store: &S,
    query: engine::QueryModel,
    session: budget::SessionModel,
    presented: Option<CursorModel>,
    page: result::PageModel<RecordView>,
    after: budget::SessionModel,
) -> (walked: (bool, Seq<Pull>))
    requires
        engine::may_walk_to(store, query, session, presented, page, after),
    ensures
        ({
            let start = engine::walk_start(query, session, presented, walked.0);
            &&& engine::may_be_resident(store, query.kind, presented, walked.0)
            &&& start.may_walk(store, walked.1)
            &&& page == start.walked(walked.1).page()
            &&& after == start.walked(walked.1).session
        }),
{
    choose|resident: bool, pulls: Seq<Pull>|
        {
            &&& engine::may_be_resident(store, query.kind, presented, resident)
            &&& #[trigger] engine::walk_start(query, session, presented, resident).may_walk(
                store,
                pulls,
            )
            &&& page == engine::walk_start(query, session, presented, resident).walked(pulls).page()
            &&& after == engine::walk_start(query, session, presented, resident).walked(
                pulls,
            ).session
        }
}

/// A page stays within what its session had left, and is charged for what it
/// returns: exactly its records left the results ceiling, exactly their evidence
/// left the byte ceiling, and no more was examined than the scan ceiling had
/// left. What was admitted with the session does not change, and every record
/// returned is of the query's kind and one that the filters select.
pub proof fn a_page_stays_within_its_budget<S: TelemetryStore + ?Sized>(
    store: &S,
    query: engine::QueryModel,
    session: budget::SessionModel,
    presented: Option<CursorModel>,
    page: result::PageModel<RecordView>,
    after: budget::SessionModel,
)
    requires
        engine::may_walk_to(store, query, session, presented, page, after),
    ensures
        page.items.len() == session.ledger.results.remaining - after.ledger.results.remaining,
        total_evidence(page.items) == session.ledger.bytes.remaining
            - after.ledger.bytes.remaining,
        after.ledger.scan.remaining <= session.ledger.scan.remaining,
        after.budget == session.budget,
        after.admitted_at == session.admitted_at,
        after.ledger.aggregation_memory == session.ledger.aggregation_memory,
        forall|i: int|
            0 <= i < page.items.len() ==> walk::of_kind(query.kind, #[trigger] page.items[i])
                && filters::selected(query.kind, query.filters, page.items[i]),
{
    let (resident, pulls) = the_walk_behind(store, query, session, presented, page, after);
    let start = engine::walk_start(query, session, presented, resident);
    a_start_keeps(query, session, presented, resident);
    a_walk_keeps(start, store, pulls, pulls.len());
    assert(pulls.take(pulls.len() as int) =~= pulls);
}

/// A continuation says what it did not cover: its first coverage entry is the
/// snapshot boundary, and it names a gap exactly when the record at its anchor
/// is gone. A first page names neither.
pub proof fn a_continuation_names_its_boundary_and_its_gap<S: TelemetryStore + ?Sized>(
    store: &S,
    query: engine::QueryModel,
    session: budget::SessionModel,
    presented: Option<CursorModel>,
    resident: bool,
    pulls: Seq<Pull>,
)
    requires
        engine::walk_start(query, session, presented, resident).may_walk(store, pulls),
    ensures
        ({
            let page = engine::walk_start(query, session, presented, resident).walked(pulls).page();
            &&& presented matches Some(cursor) ==> page.coverage.len() > 0 && page.coverage[0] == (
            CoverageEntry::SnapshotBoundary { admission: cursor.snapshot })
            &&& gap_named(page.coverage) == match presented {
                Some(cursor) => if resident {
                    None
                } else {
                    Some(cursor.last_entity)
                },
                None => None,
            }
        }),
{
    let start = engine::walk_start(query, session, presented, resident);
    a_start_keeps(query, session, presented, resident);
    a_walk_keeps(start, store, pulls, pulls.len());
    assert(pulls.take(pulls.len() as int) =~= pulls);
    let walk = start.walked(pulls);
    assert(walk.page().coverage.len() > walk.coverage.len() ==> walk.page().coverage.drop_last()
        =~= walk.coverage);
}

/// A record that the filters leave out costs one examination and nothing else:
/// no result, no byte, no omission, and nothing of the answer.
pub proof fn a_record_left_out_costs_one_examination(
    walk: WalkModel,
    yielded: Yielded,
    behind: int,
    readings: Readings,
)
    requires
        walk.verdict(yielded, readings) is LeftOut,
    ensures
        ({
            let after = walk.judged(yielded, behind, readings);
            &&& after.items == walk.items
            &&& after.counting == walk.counting
            &&& after.stopped == walk.stopped
            &&& after.last_included == walk.last_included
            &&& after.session.ledger.results == walk.session.ledger.results
            &&& after.session.ledger.bytes == walk.session.ledger.bytes
            &&& after.session.ledger.scan.remaining == walk.session.ledger.scan.remaining - 1
        }),
{
    reveal(WalkModel::judged);
}

/// A cursor continues its own query and no query of another fingerprint.
pub proof fn a_foreign_cursor_is_rejected(
    query: engine::QueryModel,
    other: engine::QueryModel,
    minted: CursorModel,
)
    requires
        minted.valid(),
        minted.fingerprint == query.fingerprint(),
        other.fingerprint() != query.fingerprint(),
    ensures
        engine::presented_cursor(query, Some(minted.encoding())) == Ok::<
            Option<CursorModel>,
            CursorError,
        >(Some(minted)),
        engine::presented_cursor(other, Some(minted.encoding())) == Err::<
            Option<CursorModel>,
            CursorError,
        >(CursorError::FingerprintMismatch),
{
    cursor::decoding_undoes_encoding(minted);
}

/// Whether resident records stand in the residency order, each once.
pub open spec fn ordered(resident: Seq<Yielded>) -> bool {
    forall|i: int, j: int|
        0 <= i < j < resident.len() ==> order::key_precedes(
            #[trigger] resident[i].key,
            #[trigger] resident[j].key,
        )
}

/// How many resident records stand at or before a position; none stand before
/// the start.
pub open spec fn rank(resident: Seq<Yielded>, position: Option<AdmissionKey>) -> nat
    decreases resident.len(),
{
    if resident.len() == 0 || position is None {
        0
    } else {
        rank(resident.drop_last(), position) + if order::key_precedes(
            position->Some_0,
            resident.last().key,
        ) {
            0nat
        } else {
            1
        }
    }
}

/// The scan law: the resident records after a position, in order, as many as
/// were asked for, and the position of the last of them when more follow.
pub open spec fn scan_law(
    resident: Seq<Yielded>,
    after: Option<AdmissionKey>,
    limit: usize,
    records: Seq<Yielded>,
    cursor: Option<AdmissionKey>,
) -> bool {
    let from = rank(resident, after) as int;
    let upto = if from + limit < resident.len() {
        from + limit
    } else {
        resident.len() as int
    };
    &&& records == resident.subrange(from, upto)
    &&& cursor == if upto < resident.len() {
        Some(resident[upto - 1].key)
    } else {
        None
    }
}

/// Whether a store holds these records of a kind, and scans them by the law.
pub open spec fn obeys_scan_law<S: TelemetryStore + ?Sized>(
    store: &S,
    kind: SignalKind,
    resident: Seq<Yielded>,
) -> bool {
    &&& ordered(resident)
    &&& forall|
        after: Option<AdmissionKey>,
        limit: usize,
        records: Seq<Yielded>,
        cursor: Option<AdmissionKey>,
    |
        limit > 0 && #[trigger] store.may_scan(kind, after, limit, records, cursor) ==> scan_law(
            resident,
            after,
            limit,
            records,
            cursor,
        )
}

/// The records that a query selects, in order.
pub open spec fn matching(
    kind: SignalKind,
    filters: FilterModel,
    records: Seq<Yielded>,
) -> Seq<RecordView>
    decreases records.len(),
{
    if records.len() == 0 {
        Seq::empty()
    } else if filters::selected(kind, filters, records.last().record) {
        matching(kind, filters, records.drop_last()).push(records.last().record)
    } else {
        matching(kind, filters, records.drop_last())
    }
}

/// The resident records after one rank and up to another.
pub open spec fn between(resident: Seq<Yielded>, from: nat, upto: nat) -> Seq<Yielded> {
    if from <= upto <= resident.len() {
        resident.subrange(from as int, upto as int)
    } else {
        Seq::empty()
    }
}

/// The position that a cursor continues after.
pub open spec fn anchor_of(cursor: CursorModel) -> AdmissionKey {
    AdmissionKey::at(cursor.position, cursor.last_entity)
}

proof fn rank_divides(resident: Seq<Yielded>, position: AdmissionKey, index: int)
    requires
        ordered(resident),
        0 <= index < resident.len(),
    ensures
        rank(resident, Some(position)) <= resident.len(),
        index < rank(resident, Some(position)) <==> !order::key_precedes(
            position,
            resident[index].key,
        ),
    decreases resident.len(),
{
    let shorter = resident.drop_last();
    assert forall|i: int, j: int| 0 <= i < j < shorter.len() implies order::key_precedes(
        #[trigger] shorter[i].key,
        #[trigger] shorter[j].key,
    ) by {
        assert(shorter[i] == resident[i] && shorter[j] == resident[j]);
    }
    if index < shorter.len() {
        rank_divides(shorter, position, index);
        order::key_order_is_total(position, resident[index].key, resident.last().key);
        order::key_order_is_total(resident[index].key, resident.last().key, position);
    } else if shorter.len() > 0 {
        rank_divides(shorter, position, shorter.len() - 1);
        order::key_order_is_total(
            position,
            resident[shorter.len() - 1].key,
            resident.last().key,
        );
    }
}

proof fn rank_of_a_resident(resident: Seq<Yielded>, index: int)
    requires
        ordered(resident),
        0 <= index < resident.len(),
    ensures
        rank(resident, Some(resident[index].key)) == index + 1,
{
    let key = resident[index].key;
    rank_divides(resident, key, index);
    order::key_order_is_total(key, key, key);
    if index + 1 < resident.len() {
        rank_divides(resident, key, index + 1);
    }
}

proof fn rank_is_a_count(resident: Seq<Yielded>, position: Option<AdmissionKey>)
    requires
        ordered(resident),
    ensures
        rank(resident, position) <= resident.len(),
{
    if resident.len() > 0 && position is Some {
        rank_divides(resident, position->Some_0, 0);
    }
}

proof fn matching_extends(
    kind: SignalKind,
    filters: FilterModel,
    resident: Seq<Yielded>,
    from: nat,
    upto: nat,
)
    requires
        from <= upto < resident.len(),
    ensures
        matching(kind, filters, between(resident, from, upto + 1)) == if filters::selected(
            kind,
            filters,
            resident[upto as int].record,
        ) {
            matching(kind, filters, between(resident, from, upto)).push(
                resident[upto as int].record,
            )
        } else {
            matching(kind, filters, between(resident, from, upto))
        },
{
    assert(between(resident, from, upto + 1).drop_last() =~= between(resident, from, upto));
    assert(between(resident, from, upto + 1).last() == resident[upto as int]);
}

proof fn matching_joins(
    kind: SignalKind,
    filters: FilterModel,
    resident: Seq<Yielded>,
    from: nat,
    middle: nat,
    upto: nat,
)
    requires
        from <= middle <= upto <= resident.len(),
    ensures
        matching(kind, filters, between(resident, from, upto)) == matching(
            kind,
            filters,
            between(resident, from, middle),
        ) + matching(kind, filters, between(resident, middle, upto)),
    decreases upto,
{
    if middle < upto {
        matching_joins(kind, filters, resident, from, middle, (upto - 1) as nat);
        matching_extends(kind, filters, resident, from, (upto - 1) as nat);
        matching_extends(kind, filters, resident, middle, (upto - 1) as nat);
        assert(matching(kind, filters, between(resident, from, upto)) =~= matching(
            kind,
            filters,
            between(resident, from, middle),
        ) + matching(kind, filters, between(resident, middle, upto)));
    } else {
        assert(between(resident, middle, upto) =~= Seq::empty());
        assert(matching(kind, filters, between(resident, from, upto)) =~= matching(
            kind,
            filters,
            between(resident, from, middle),
        ) + matching(kind, filters, between(resident, middle, upto)));
    }
}

/// The rank behind the last record that a walk returned.
spec fn returned_rank(start: WalkModel, walk: WalkModel, resident: Seq<Yielded>) -> nat {
    match walk.last_included {
        Some(key) => rank(resident, Some(key)),
        None => rank(resident, start.after),
    }
}

/// Where a walk over resident records stands that has judged those up to rank
/// `at` and has not stopped: it has returned the matching ones up to the last
/// returned, and beyond it only such as did not fit the byte ceiling match.
spec fn stands(start: WalkModel, walk: WalkModel, resident: Seq<Yielded>, at: nat) -> bool {
    let from = rank(resident, start.after);
    let returned = returned_rank(start, walk, resident);
    &&& walk.kind == start.kind
    &&& walk.filters == start.filters
    &&& walk.fingerprint == start.fingerprint
    &&& walk.presented == start.presented
    &&& from <= returned <= at <= resident.len()
    &&& at - from <= examinations(start, walk)
    &&& walk.last_included matches Some(key) ==> returned > from && resident[returned - 1].key
        == key
    &&& walk.last_included is Some <==> walk.items.len() > 0
    &&& walk.items == matching(start.kind, start.filters, between(resident, from, returned))
    &&& walk.counting is None ==> walk.items == matching(
        start.kind,
        start.filters,
        between(resident, from, at),
    )
    &&& walk.counting matches Some(counting) ==> counts(start, walk, resident, at, counting)
    &&& !names_a_tail(walk.coverage)
    &&& walk.countable()
    &&& walk.session.ledger.scan.valid()
    &&& at > from ==> walk.pending_gap is None
    &&& walk.last_examined == if at > from {
        Some(resident[at - 1].key)
    } else {
        None
    }
    &&& at > from ==> at <= end_rank(resident, walk.bound())
}

/// How many examinations have left the scan ceiling since `start`.
spec fn examinations(start: WalkModel, walk: WalkModel) -> int {
    start.session.ledger.scan.remaining - walk.session.ledger.scan.remaining
}

/// What is true of a count that is open at rank `at`: it knows the matching
/// records behind the last returned one, which of them do not fit, and the
/// position of the last.
spec fn counts(
    start: WalkModel,
    walk: WalkModel,
    resident: Seq<Yielded>,
    at: nat,
    counting: walk::Counting,
) -> bool {
    let returned = returned_rank(start, walk, resident);
    let seen = rank(resident, Some(counting.last_seen));
    let ahead = matching(start.kind, start.filters, between(resident, returned, at));
    &&& counting.omitted == misfits(ahead, walk.session.ledger.bytes.remaining)
    &&& counting.seen == ahead.len()
    &&& returned < seen <= at
    &&& resident[seen - 1].key == counting.last_seen
    &&& ahead == matching(start.kind, start.filters, between(resident, returned, seen))
}

/// Whether the coverage ends by saying that a count of omissions was cut.
pub open spec fn names_a_tail(coverage: Seq<CoverageEntry>) -> bool {
    coverage.len() > 0 && coverage.last() is UncountedTail
}

/// How many selected records a page passes over, so that its continuation starts
/// behind them: those that it saw behind the byte ceiling when the count of them
/// was cut, except a single one behind records that it returned.
pub open spec fn passed_over(page: result::PageModel<RecordView>) -> nat {
    match page.parts[0] {
        PartModel::Degraded { dimension, omitted, .. } => if dimension == Dimension::Bytes
            && names_a_tail(page.coverage) && (omitted > 1 || page.items.len() == 0) {
            omitted as nat
        } else {
            0
        },
        _ => 0,
    }
}

/// Whether `items` are `all` of some records but for the last `passed` of them.
pub open spec fn all_but(items: Seq<RecordView>, all: Seq<RecordView>, passed: nat) -> bool {
    &&& items.len() + passed == all.len()
    &&& items == all.take(items.len() as int)
}

/// The rank where what a walk may see ends.
pub open spec fn end_rank(resident: Seq<Yielded>, bound: Option<AdmissionKey>) -> nat {
    match bound {
        Some(bound) => rank(resident, Some(bound)),
        None => resident.len(),
    }
}

/// What is true of a walk over resident records that has stopped. Where there
/// is a continuation, everything that matches up to its anchor was returned, but
/// for what the page passed over; where the walk is complete, everything was; and
/// otherwise nothing was. A walk whose count was cut continues further on.
spec fn loses_nothing(start: WalkModel, walk: WalkModel, resident: Seq<Yielded>) -> bool {
    let from = rank(resident, start.after);
    &&& walk.stopped matches Some(outcome) ==> counts_truly(start, walk, resident, outcome)
    &&& match walk.stopped {
        None => false,
        Some(PartModel::Stalled) => false,
        Some(PartModel::Complete) => walk.items == matching(
            start.kind,
            start.filters,
            between(resident, from, end_rank(resident, start.bound())),
        ) && !names_a_tail(walk.coverage) && end_rank(resident, start.bound()) - from
            <= examinations(start, walk),
        Some(PartModel::Degraded { position: PointModel::Cursor(bytes), .. }) =>
            exists|cursor: CursorModel|
                {
                    &&& bytes == #[trigger] cursor.encoding()
                    &&& continues(start, walk.items, passed_over(walk.page()), resident, cursor)
                    &&& names_a_tail(walk.coverage) ==> from < rank(
                        resident,
                        Some(anchor_of(cursor)),
                    )
                    &&& rank(resident, Some(anchor_of(cursor))) - from <= examinations(start, walk)
                },
        Some(_) => walk.items.len() == 0 && !names_a_tail(walk.coverage),
    }
}

/// What is true of the omissions of a walk that has stopped. Those that it names
/// are the selected records after the last returned one that do not fit what is
/// left of the byte ceiling. Where it says that the count was cut, they are all
/// the selected records that it saw since.
spec fn counts_truly(
    start: WalkModel,
    walk: WalkModel,
    resident: Seq<Yielded>,
    outcome: PartModel,
) -> bool {
    outcome matches PartModel::Degraded { dimension, omitted, .. } ==> if dimension
        == Dimension::Bytes {
        exists|seen: nat|
            #[trigger] saw(start, walk, resident, seen) && omitted == omissions(
                matching(
                    start.kind,
                    start.filters,
                    between(resident, returned_rank(start, walk, resident), seen),
                ),
                walk.session.ledger.bytes.remaining,
                names_a_tail(walk.coverage),
            )
    } else {
        omitted == 0
    }
}

/// How many of the selected records that a page saw behind the byte ceiling it
/// omits: all, where the count of them was cut; else those that do not fit.
pub open spec fn omissions(records: Seq<RecordView>, room: u64, cut: bool) -> nat {
    if cut {
        records.len()
    } else {
        misfits(records, room)
    }
}

/// Whether a walk that counted omissions saw the records up to a rank.
spec fn saw(start: WalkModel, walk: WalkModel, resident: Seq<Yielded>, seen: nat) -> bool {
    let from = rank(resident, start.after);
    let returned = returned_rank(start, walk, resident);
    &&& from <= returned <= seen <= resident.len()
    &&& walk.items == matching(start.kind, start.filters, between(resident, from, returned))
    &&& walk.pending_gap is None
    &&& if names_a_tail(walk.coverage) {
        cut_after(walk.coverage, resident, seen)
    } else {
        seen == end_rank(resident, start.bound())
    }
}

/// Whether the coverage says that a count was cut after the resident record at a
/// rank.
pub open spec fn cut_after(
    coverage: Seq<CoverageEntry>,
    resident: Seq<Yielded>,
    seen: nat,
) -> bool {
    &&& 0 < seen <= resident.len()
    &&& coverage.len() > 0
    &&& coverage.last() matches CoverageEntry::UncountedTail { after, .. } && after
        == resident[seen - 1].key.entity_id()
}

/// How many of these records do not fit into `room` bytes.
pub open spec fn misfits(records: Seq<RecordView>, room: u64) -> nat
    decreases records.len(),
{
    if records.len() == 0 {
        0
    } else {
        misfits(records.drop_last(), room) + if walk::evidence(records.last()) > room {
            1nat
        } else {
            0
        }
    }
}

/// What is true of the cursor of a walk that has stopped.
spec fn continues(
    start: WalkModel,
    items: Seq<RecordView>,
    passed: nat,
    resident: Seq<Yielded>,
    cursor: CursorModel,
) -> bool {
    let from = rank(resident, start.after);
    let upto = rank(resident, Some(anchor_of(cursor)));
    &&& from <= upto <= resident.len()
    &&& all_but(
        items,
        matching(start.kind, start.filters, between(resident, from, upto)),
        passed,
    )
    &&& start.presented matches Some(presented) ==> cursor == presented || {
        &&& cursor.fingerprint == start.fingerprint
        &&& cursor.snapshot == presented.snapshot
        &&& from < upto <= rank(resident, Some(cursor.snapshot))
        &&& resident[upto - 1].key == anchor_of(cursor)
    }
    &&& start.presented is None ==> {
        &&& cursor.fingerprint == start.fingerprint
        &&& from < upto <= rank(resident, Some(cursor.snapshot))
        &&& resident[upto - 1].key == anchor_of(cursor)
        &&& resident[rank(resident, Some(cursor.snapshot)) - 1].key == cursor.snapshot
        &&& resident.len() <= SCAN_BATCH ==> rank(resident, Some(cursor.snapshot))
            == resident.len()
    }
}

/// Whether a walk has pulled the resident records up to a rank: all of them,
/// where one batch holds them.
spec fn fronts(walk: WalkModel, resident: Seq<Yielded>, pulled: nat) -> bool {
    &&& 0 < pulled <= resident.len()
    &&& walk.frontier == Some(resident[pulled - 1].key)
    &&& resident.len() <= SCAN_BATCH ==> pulled == resident.len()
}

proof fn a_cut_loses_nothing(
    start: WalkModel,
    walk: WalkModel,
    resident: Seq<Yielded>,
    at: nat,
    anchor: AdmissionKey,
    upto: nat,
    pulled: nat,
    passed: nat,
)
    requires
        ordered(resident),
        stands(start, walk, resident, at),
        rank(resident, start.after) < upto <= at,
        resident[upto - 1].key == anchor,
        all_but(
            walk.items,
            matching(
                start.kind,
                start.filters,
                between(resident, rank(resident, start.after), upto),
            ),
            passed,
        ),
        at <= pulled <= resident.len(),
        fronts(walk, resident, pulled),
    ensures
        continues(start, walk.items, passed, resident, walk.cursor_at(anchor)),
        rank(resident, Some(anchor_of(walk.cursor_at(anchor)))) == upto,
{
    storage::admission_key_is_its_parts(anchor, anchor);
    rank_of_a_resident(resident, upto - 1);
    rank_of_a_resident(resident, pulled - 1);
}

/// Whether a walk starts where its cursor says, and has done nothing yet.
spec fn begins(start: WalkModel) -> bool {
    &&& start.items == Seq::<RecordView>::empty()
    &&& start.last_included is None
    &&& start.last_examined is None
    &&& start.counting is None
    &&& start.stopped is None
    &&& start.empty_pulls == 0
    &&& start.session.ledger.scan.valid()
    &&& !names_a_tail(start.coverage)
    &&& start.after == match start.presented {
        Some(cursor) => Some(anchor_of(cursor)),
        None => None,
    }
}

proof fn a_return_anchored_cut_loses_nothing(
    start: WalkModel,
    walk: WalkModel,
    stopped: WalkModel,
    resident: Seq<Yielded>,
    at: nat,
    pulled: nat,
    dimension: Dimension,
    omitted: u64,
    last: EntityId,
)
    requires
        ordered(resident),
        begins(start),
        stands(start, walk, resident, at),
        at <= pulled <= resident.len(),
        fronts(walk, resident, pulled),
        stopped.items == walk.items,
        stopped.stopped == Some(walk.cut(dimension, omitted, last)),
        at - rank(resident, start.after) <= examinations(start, stopped),
        passed_over(stopped.page()) == 0,
        names_a_tail(stopped.coverage) ==> walk.last_included is Some,
        counts_truly(start, stopped, resident, walk.cut(dimension, omitted, last)),
    ensures
        loses_nothing(start, stopped, resident),
{
    let from = rank(resident, start.after);
    let returned = returned_rank(start, walk, resident);
    match walk.last_included {
        Some(anchor) => {
            assert(walk.items =~= walk.items.take(walk.items.len() as int));
            a_cut_loses_nothing(start, walk, resident, at, anchor, returned, pulled, 0);
            let cursor = walk.cursor_at(anchor);
            assert(continues(start, stopped.items, 0, resident, cursor));
            assert(cursor.encoding() == cursor.encoding());
        },
        None => {
            assert(between(resident, from, from) =~= Seq::empty());
            match walk.presented {
                Some(cursor) => {
                    assert(walk.items =~= walk.items.take(0));
                    assert(continues(start, stopped.items, 0, resident, cursor));
                    assert(cursor.encoding() == cursor.encoding());
                },
                None => {},
            }
        },
    }
}

proof fn an_end_loses_nothing(
    start: WalkModel,
    walk: WalkModel,
    resident: Seq<Yielded>,
    at: nat,
    pulled: nat,
)
    requires
        ordered(resident),
        begins(start),
        stands(start, walk, resident, at),
        at <= pulled <= resident.len(),
        fronts(walk, resident, pulled),
        at == end_rank(resident, start.bound()) || (at == rank(resident, start.after) && at
            >= end_rank(resident, start.bound())),
    ensures
        loses_nothing(start, walk.finished(), resident),
{
    match walk.counting {
        Some(counting) => {
            assert(saw(start, walk.finished(), resident, at));
            a_return_anchored_cut_loses_nothing(
                start,
                walk,
                walk.finished(),
                resident,
                at,
                pulled,
                Dimension::Bytes,
                counting.omitted,
                counting.last,
            );
        },
        None => {
            let from = rank(resident, start.after);
            assert(between(resident, from, from) =~= Seq::empty());
            if at > end_rank(resident, start.bound()) {
                assert(between(resident, from, end_rank(resident, start.bound())) =~= Seq::empty());
            }
        },
    }
}

proof fn a_stop_before_a_record_loses_nothing(
    start: WalkModel,
    walk: WalkModel,
    resident: Seq<Yielded>,
    at: nat,
    pulled: nat,
    refusal: result::BudgetRefusal,
)
    requires
        ordered(resident),
        begins(start),
        stands(start, walk, resident, at),
        walk.stopped is None,
        refusal.dimension != Dimension::Bytes,
        at < pulled <= resident.len(),
        fronts(walk, resident, pulled),
    ensures
        loses_nothing(start, walk.cut_before_examining(refusal), resident),
{
    let from = rank(resident, start.after);
    let returned = returned_rank(start, walk, resident);
    let after = walk.cut_before_examining(refusal);
    match walk.counting {
        Some(counting) => {
            assert(saw(start, after, resident, at));
            if counting.seen == 1 && walk.last_included is Some {
                a_return_anchored_cut_loses_nothing(
                    start,
                    walk,
                    after,
                    resident,
                    at,
                    pulled,
                    Dimension::Bytes,
                    counting.seen,
                    counting.last,
                );
            } else {
                let seen = rank(resident, Some(counting.last_seen));
                let ahead = matching(start.kind, start.filters, between(resident, returned, at));
                matching_joins(start.kind, start.filters, resident, from, returned, seen);
                assert(walk.items =~= (walk.items + ahead).take(walk.items.len() as int));
                a_cut_loses_nothing(
                    start,
                    walk,
                    resident,
                    at,
                    counting.last_seen,
                    seen,
                    pulled,
                    counting.seen as nat,
                );
                let cursor = walk.cursor_at(counting.last_seen);
                assert(passed_over(after.page()) == counting.seen);
                assert(continues(
                    start,
                    after.items,
                    passed_over(after.page()),
                    resident,
                    cursor,
                ));
                assert(cursor.encoding() == cursor.encoding());
            }
        },
        None => {
            match walk.last_examined {
                Some(anchor) => {
                    assert(walk.items =~= walk.items.take(walk.items.len() as int));
                    a_cut_loses_nothing(start, walk, resident, at, anchor, at, pulled, 0);
                    assert(continues(
                        start,
                        after.items,
                        passed_over(after.page()),
                        resident,
                        walk.cursor_at(anchor),
                    ));
                },
                None => {
                    assert(between(resident, from, from) =~= Seq::empty());
                },
            }
        },
    }
}

proof fn a_record_is_lost_to_nothing(
    start: WalkModel,
    walk: WalkModel,
    resident: Seq<Yielded>,
    at: nat,
    pulled: nat,
    behind: int,
    readings: Readings,
)
    requires
        ordered(resident),
        begins(start),
        stands(start, walk, resident, at),
        walk.stopped is None,
        at < pulled <= resident.len(),
        fronts(walk, resident, pulled),
    ensures
        ({
            let after = walk.judged(resident[at as int], behind, readings);
            &&& after.frontier == walk.frontier
            &&& after.empty_pulls == walk.empty_pulls
            &&& after.after == walk.after
            &&& if after.stopped is None {
                stands(start, after, resident, at + 1)
            } else {
                loses_nothing(start, after, resident)
            }
        }),
{
    reveal(WalkModel::judged);
    let yielded = resident[at as int];
    let after = walk.judged(yielded, behind, readings);
    let from = rank(resident, start.after);
    let examined = walk.examined(yielded.key, readings.scan);
    rank_of_a_resident(resident, at as int);
    let returned = returned_rank(start, walk, resident);
    matching_extends(start.kind, start.filters, resident, from, at);
    matching_extends(start.kind, start.filters, resident, returned, at);
    matching_joins(start.kind, start.filters, resident, from, returned, at);
    let ahead = matching(start.kind, start.filters, between(resident, returned, at));
    assert(ahead.push(yielded.record).drop_last() =~= ahead);
    if walk.counting is None {
        assert(ahead.len() == 0);
        assert(misfits(ahead, walk.session.ledger.bytes.remaining) == 0);
    }
    if let Some(bound) = walk.bound() {
        rank_divides(resident, bound, at as int);
        if at > 0 {
            rank_divides(resident, bound, at - 1);
        }
    }
    match walk.verdict(yielded, readings) {
        Verdict::PastSnapshot => {
            let settled = walk.settled(behind + 1);
            assert(stands(start, settled, resident, at));
            an_end_loses_nothing(start, settled, resident, at, pulled);
        },
        Verdict::ScanRefused(refusal) => {
            let settled = WalkModel {
                session: walk.session.after_scan(readings.scan, 1),
                ..walk
            }.settled(behind + 1);
            assert(stands(start, settled, resident, at));
            a_stop_before_a_record_loses_nothing(start, settled, resident, at, pulled, refusal);
        },
        Verdict::ResultsSpent => {
            a_return_anchored_cut_loses_nothing(
                start,
                walk,
                after,
                resident,
                at,
                pulled,
                Dimension::Results,
                0,
                yielded.key.entity_id(),
            );
        },
        Verdict::IncludeRefused(refusal) => {
            a_return_anchored_cut_loses_nothing(
                start,
                walk,
                after,
                resident,
                at,
                pulled,
                refusal.dimension,
                0,
                yielded.key.entity_id(),
            );
        },
        _ => {},
    }
}

proof fn a_batch_is_lost_to_nothing(
    start: WalkModel,
    walk: WalkModel,
    resident: Seq<Yielded>,
    at: nat,
    pulled: nat,
    pull: Pull,
    count: nat,
)
    requires
        ordered(resident),
        begins(start),
        stands(start, walk, resident, at),
        walk.stopped is None,
        at < pulled <= resident.len(),
        fronts(walk, resident, pulled),
        pull.records == resident.subrange(at as int, pulled as int),
        count <= pull.records.len(),
    ensures
        ({
            let after = walk.judged_batch(pull, count);
            &&& after.frontier == walk.frontier
            &&& after.empty_pulls == walk.empty_pulls
            &&& after.after == walk.after
            &&& if after.stopped is None {
                stands(start, after, resident, at + count)
            } else {
                loses_nothing(start, after, resident)
            }
        }),
    decreases count,
{
    if count > 0 {
        a_batch_is_lost_to_nothing(start, walk, resident, at, pulled, pull, (count - 1) as nat);
        let before = walk.judged_batch(pull, (count - 1) as nat);
        if before.stopped is None {
            assert(pull.records[count - 1] == resident[at + count - 1]);
            a_record_is_lost_to_nothing(
                start,
                before,
                resident,
                (at + count - 1) as nat,
                pulled,
                pull.records.len() - count,
                pull.readings[count - 1],
            );
        }
    }
}

/// Where a walk over resident records stands between two batches.
spec fn rests(start: WalkModel, walk: WalkModel, resident: Seq<Yielded>, at: nat) -> bool {
    &&& stands(start, walk, resident, at)
    &&& walk.stopped is None
    &&& walk.empty_pulls == 0
    &&& rank(resident, walk.after) == at
    &&& at == resident.len() ==> at == rank(resident, start.after)
}

proof fn a_pull_is_lost_to_nothing(
    start: WalkModel,
    walk: WalkModel,
    resident: Seq<Yielded>,
    at: nat,
    pull: Pull,
)
    requires
        ordered(resident),
        begins(start),
        rests(start, walk, resident, at),
        scan_law(resident, walk.after, SCAN_BATCH, pull.records, pull.cursor),
    ensures
        ({
            let after = walk.after_pull(pull);
            if after.stopped is None {
                rests(start, after, resident, (at + SCAN_BATCH) as nat)
            } else {
                loses_nothing(start, after, resident)
            }
        }),
{
    let from = rank(resident, start.after);
    let upto = if at + SCAN_BATCH < resident.len() {
        (at + SCAN_BATCH) as nat
    } else {
        resident.len()
    };
    let pulled = walk.pulled(pull);
    let count = pull.records.len();
    rank_is_a_count(resident, start.bound());
    if at == resident.len() {
        assert(pulled.judged_batch(pull, 0) == pulled);
        assert(between(resident, from, from) =~= Seq::empty());
        assert(between(resident, from, end_rank(resident, start.bound())) =~= Seq::empty());
    } else {
        assert(pull.records.last() == resident[upto - 1]);
        assert(stands(start, pulled, resident, at));
        a_batch_is_lost_to_nothing(start, pulled, resident, at, upto, pull, count);
        let judged = pulled.judged_batch(pull, count);
        if judged.stopped is None {
            rank_of_a_resident(resident, upto - 1);
            if pull.cursor is None {
                an_end_loses_nothing(start, judged, resident, upto, upto);
            } else {
                assert(stands(start, walk.after_pull(pull), resident, upto));
            }
        }
    }
}

proof fn a_walk_is_lost_to_nothing<S: TelemetryStore + ?Sized>(
    start: WalkModel,
    store: &S,
    resident: Seq<Yielded>,
    pulls: Seq<Pull>,
    count: nat,
)
    requires
        obeys_scan_law(store, start.kind, resident),
        begins(start),
        forall|i: int| 0 <= i < pulls.len() ==> #[trigger] start.may_pull(store, pulls, i),
        count <= pulls.len(),
    ensures
        ({
            let walk = start.walked(pulls.take(count as int));
            if walk.stopped is None {
                rests(
                    start,
                    walk,
                    resident,
                    (rank(resident, start.after) + count * SCAN_BATCH) as nat,
                )
            } else {
                loses_nothing(start, walk, resident)
            }
        }),
    decreases count,
{
    let from = rank(resident, start.after);
    rank_is_a_count(resident, start.after);
    if count == 0 {
        assert(between(resident, from, from) =~= Seq::empty());
        assert(matching(start.kind, start.filters, between(resident, from, from)) =~= start.items);
    } else {
        let index = count - 1;
        a_walk_is_lost_to_nothing(start, store, resident, pulls, index as nat);
        assert(start.may_pull(store, pulls, index));
        assert(pulls.take(count as int).drop_last() =~= pulls.take(index));
        assert(pulls.take(count as int).last() == pulls[index]);
        let walk = start.walked(pulls.take(index));
        a_pull_is_lost_to_nothing(
            start,
            walk,
            resident,
            (from + index * SCAN_BATCH) as nat,
            pulls[index],
        );
    }
}

/// Whether every resident record has an identity that can be held.
pub open spec fn identified(resident: Seq<Yielded>) -> bool {
    forall|i: int| 0 <= i < resident.len() ==> (#[trigger] resident[i]).key.entity_id().valid()
}

/// Where the records start that a page is about: after the presented cursor's
/// anchor.
pub open spec fn start_rank(resident: Seq<Yielded>, presented: Option<CursorModel>) -> nat {
    match presented {
        Some(cursor) => rank(resident, Some(anchor_of(cursor))),
        None => 0,
    }
}

/// Where they end: at the presented cursor's snapshot boundary.
pub open spec fn stop_rank(resident: Seq<Yielded>, presented: Option<CursorModel>) -> nat {
    match presented {
        Some(cursor) => rank(resident, Some(cursor.snapshot)),
        None => resident.len(),
    }
}

/// Whether a cursor continues from inside its snapshot, as every one does that a
/// page gives.
pub open spec fn well_placed(cursor: CursorModel) -> bool {
    within(Some(cursor.snapshot), anchor_of(cursor))
}

/// Whether a cursor is one that a query accepts.
pub open spec fn accepted(query: engine::QueryModel, presented: Option<CursorModel>) -> bool {
    presented matches Some(cursor) ==> cursor.valid() && cursor.fingerprint == query.fingerprint()
}

/// Over a store that follows the scan law, a page and its continuation lose
/// nothing and repeat nothing. A page with a continuation returns every record
/// that the query selects from where it starts up to the continuation's
/// anchor, in order, but for those at the end that it says it passes over; a
/// complete page returns all of them up to the end of the snapshot; any other
/// page returns none. A page never stalls. The continuation is a cursor that the
/// same query accepts, inside the same snapshot; on a first page, inside the one
/// that the page fixes, which holds all records if one batch holds them.
pub proof fn a_page_loses_nothing<S: TelemetryStore + ?Sized>(
    store: &S,
    resident: Seq<Yielded>,
    query: engine::QueryModel,
    session: budget::SessionModel,
    presented: Option<CursorModel>,
    page: result::PageModel<RecordView>,
    after: budget::SessionModel,
)
    requires
        obeys_scan_law(store, query.kind, resident),
        identified(resident),
        session.ledger.valid(),
        accepted(query, presented),
        engine::may_walk_to(store, query, session, presented, page, after),
    ensures
        page.parts.len() == 1,
        page.parts[0] !is Stalled,
        match page.next_cursor {
            Some(bytes) => cursor::decoding(bytes) matches Some(next) && {
                let from = start_rank(resident, presented);
                let upto = start_rank(resident, Some(next));
                &&& accepted(query, Some(next))
                &&& presented matches Some(cursor) ==> next.snapshot == cursor.snapshot
                &&& (presented matches Some(cursor) ==> well_placed(cursor)) ==> well_placed(next)
                &&& from <= stop_rank(resident, presented) ==> upto <= stop_rank(
                    resident,
                    Some(next),
                )
                &&& from <= upto <= resident.len()
                &&& presented is None && resident.len() <= SCAN_BATCH ==> stop_rank(
                    resident,
                    Some(next),
                ) == resident.len()
                &&& all_but(
                    page.items,
                    matching(query.kind, query.filters, between(resident, from, upto)),
                    passed_over(page),
                )
            },
            None => if page.parts[0] is Complete {
                page.items == matching(
                    query.kind,
                    query.filters,
                    between(
                        resident,
                        start_rank(resident, presented),
                        stop_rank(resident, presented),
                    ),
                )
            } else {
                page.items.len() == 0
            },
        },
{
    let (anchored, pulls) = the_walk_behind(store, query, session, presented, page, after);
    let start = engine::walk_start(query, session, presented, anchored);
    let walk = start.walked(pulls);
    a_walk_is_lost_to_nothing(start, store, resident, pulls, pulls.len());
    assert(pulls.take(pulls.len() as int) =~= pulls);
    assert(loses_nothing(start, walk, resident));
    if let Some(PartModel::Degraded { position: PointModel::Cursor(bytes), .. }) = walk.stopped {
        let next = choose|next: CursorModel|
            bytes == #[trigger] next.encoding() && continues(
                start,
                walk.items,
                passed_over(walk.page()),
                resident,
                next,
            );
        storage::admission_key_has_its_parts(next.position, next.last_entity);
        rank_is_a_count(resident, Some(next.snapshot));
        cursor::decoding_undoes_encoding(next);
        let upto = rank(resident, Some(anchor_of(next)));
        if upto > 0 {
            rank_divides(resident, next.snapshot, upto - 1);
        }
    }
}

/// A page whose count of omissions was cut moves on: it has a continuation, and
/// that starts behind more records than the page itself did. So a chain of pages
/// passes every record that does not fit the byte ceiling, and comes to those
/// behind it.
pub proof fn a_cut_count_moves_on<S: TelemetryStore + ?Sized>(
    store: &S,
    resident: Seq<Yielded>,
    query: engine::QueryModel,
    session: budget::SessionModel,
    presented: Option<CursorModel>,
    page: result::PageModel<RecordView>,
    after: budget::SessionModel,
)
    requires
        obeys_scan_law(store, query.kind, resident),
        identified(resident),
        session.ledger.valid(),
        accepted(query, presented),
        engine::may_walk_to(store, query, session, presented, page, after),
        names_a_tail(page.coverage),
    ensures
        page.next_cursor matches Some(bytes) && start_rank(resident, cursor::decoding(bytes))
            > start_rank(resident, presented),
{
    let (anchored, pulls) = the_walk_behind(store, query, session, presented, page, after);
    let start = engine::walk_start(query, session, presented, anchored);
    let walk = start.walked(pulls);
    a_walk_is_lost_to_nothing(start, store, resident, pulls, pulls.len());
    assert(pulls.take(pulls.len() as int) =~= pulls);
    assert(loses_nothing(start, walk, resident));
    if let Some(PartModel::Degraded { position: PointModel::Cursor(bytes), .. }) = walk.stopped {
        let next = choose|next: CursorModel|
            {
                &&& bytes == #[trigger] next.encoding()
                &&& continues(start, walk.items, passed_over(walk.page()), resident, next)
                &&& names_a_tail(walk.coverage) ==> rank(resident, start.after) < rank(
                    resident,
                    Some(anchor_of(next)),
                )
            };
        storage::admission_key_has_its_parts(next.position, next.last_entity);
        rank_is_a_count(resident, Some(next.snapshot));
        cursor::decoding_undoes_encoding(next);
    }
}

/// A page covers no more records than it may examine: over a store that follows
/// the scan law, as many of its scan ceiling are gone as there are resident
/// records from where it starts up to its continuation's anchor, or if it is
/// complete to the end of its snapshot, at least.
pub proof fn a_page_covers_no_more_than_it_may_examine<S: TelemetryStore + ?Sized>(
    store: &S,
    resident: Seq<Yielded>,
    query: engine::QueryModel,
    session: budget::SessionModel,
    presented: Option<CursorModel>,
    page: result::PageModel<RecordView>,
    after: budget::SessionModel,
)
    requires
        obeys_scan_law(store, query.kind, resident),
        identified(resident),
        session.ledger.valid(),
        accepted(query, presented),
        engine::may_walk_to(store, query, session, presented, page, after),
    ensures
        ({
            let from = start_rank(resident, presented);
            let examined = session.ledger.scan.remaining - after.ledger.scan.remaining;
            &&& page.next_cursor matches Some(bytes) ==> start_rank(
                resident,
                cursor::decoding(bytes),
            ) - from <= examined
            &&& page.parts[0] is Complete ==> stop_rank(resident, presented) - from <= examined
        }),
{
    let (anchored, pulls) = the_walk_behind(store, query, session, presented, page, after);
    let start = engine::walk_start(query, session, presented, anchored);
    let walk = start.walked(pulls);
    a_walk_is_lost_to_nothing(start, store, resident, pulls, pulls.len());
    assert(pulls.take(pulls.len() as int) =~= pulls);
    assert(loses_nothing(start, walk, resident));
    if let Some(PartModel::Degraded { position: PointModel::Cursor(bytes), .. }) = walk.stopped {
        let next = choose|next: CursorModel|
            {
                &&& bytes == #[trigger] next.encoding()
                &&& continues(start, walk.items, passed_over(walk.page()), resident, next)
                &&& rank(resident, Some(anchor_of(next))) - rank(resident, start.after)
                    <= examinations(start, walk)
            };
        storage::admission_key_has_its_parts(next.position, next.last_entity);
        rank_is_a_count(resident, Some(next.snapshot));
        cursor::decoding_undoes_encoding(next);
    }
}

/// The bytes that a page of a chain continues from: those that the page before it
/// gave.
pub open spec fn continuation(pages: Seq<result::PageModel<RecordView>>, index: int) -> Option<
    Seq<u8>,
> {
    if index <= 0 {
        None
    } else {
        pages[index - 1].next_cursor
    }
}

/// The cursor that a page of a chain continues.
pub open spec fn continued(pages: Seq<result::PageModel<RecordView>>, index: int) -> Option<
    CursorModel,
> {
    match continuation(pages, index) {
        Some(bytes) => cursor::decoding(bytes),
        None => None,
    }
}

/// Whether a page of a chain may be what [`engine::records`] returns on its
/// budget, which admits a result, for the continuation that the page before it
/// gave.
pub open spec fn may_continue<S: TelemetryStore + ?Sized>(
    store: &S,
    query: engine::QueryModel,
    budgets: Seq<budget::BudgetModel>,
    pages: Seq<result::PageModel<RecordView>>,
    index: int,
) -> bool {
    &&& budgets[index].max_results >= 1
    &&& engine::may_return(
        store,
        query,
        budgets[index],
        continuation(pages, index),
        pages[index],
    )
}

/// The sessions before and after the walk behind a page of a chain.
proof fn the_sessions_behind<S: TelemetryStore + ?Sized>(
    store: &S,
    query: engine::QueryModel,
    budgets: Seq<budget::BudgetModel>,
    pages: Seq<result::PageModel<RecordView>>,
    index: int,
) -> (sessions: (budget::SessionModel, budget::SessionModel))
    requires
        may_continue(store, query, budgets, pages, index),
    ensures
        exists|at: std::time::Instant|
            sessions.0 == #[trigger] budget::SessionModel::admitted(budgets[index], at),
        sessions.0.ledger.valid(),
        sessions.0.ledger.results.remaining == budgets[index].max_results,
        engine::may_walk_to(
            store,
            query,
            sessions.0,
            continued(pages, index),
            pages[index],
            sessions.1,
        ),
{
    let presented = continued(pages, index);
    let at = choose|at: std::time::Instant|
        engine::may_answer(
            store,
            query,
            #[trigger] budget::SessionModel::admitted(budgets[index], at),
            presented,
            pages[index],
        );
    let session = budget::SessionModel::admitted(budgets[index], at);
    let after = choose|after: budget::SessionModel| #[trigger]
        engine::may_walk_to(store, query, session, presented, pages[index], after);
    (session, after)
}

/// Whether these are the pages of one query, each continuing the one before,
/// and each but the last with a continuation.
pub open spec fn chained<S: TelemetryStore + ?Sized>(
    store: &S,
    query: engine::QueryModel,
    budgets: Seq<budget::BudgetModel>,
    pages: Seq<result::PageModel<RecordView>>,
) -> bool {
    &&& pages.len() > 0
    &&& forall|i: int|
        0 <= i < pages.len() ==> #[trigger] may_continue(store, query, budgets, pages, i)
    &&& forall|i: int|
        0 <= i < pages.len() - 1 ==> (#[trigger] pages[i]).next_cursor is Some
}

/// The records of a sequence of pages, one page after the other.
pub open spec fn all_items(pages: Seq<result::PageModel<RecordView>>) -> Seq<RecordView>
    decreases pages.len(),
{
    if pages.len() == 0 {
        Seq::empty()
    } else {
        all_items(pages.drop_last()) + pages.last().items
    }
}

/// How many selected records a sequence of pages passes over.
pub open spec fn all_passed_over(pages: Seq<result::PageModel<RecordView>>) -> nat
    decreases pages.len(),
{
    if pages.len() == 0 {
        0
    } else {
        all_passed_over(pages.drop_last()) + passed_over(pages.last())
    }
}

/// The records that a chain of pages is about: those that the query selects
/// inside the snapshot that the first page fixed, or all where it fixed none.
pub open spec fn asked_for(
    resident: Seq<Yielded>,
    query: engine::QueryModel,
    pages: Seq<result::PageModel<RecordView>>,
) -> Seq<RecordView> {
    matching(
        query.kind,
        query.filters,
        between(
            resident,
            0,
            if pages.len() == 1 {
                resident.len()
            } else {
                rank(resident, Some(continued(pages, 1)->Some_0.snapshot))
            },
        ),
    )
}

proof fn a_chain_so_far<S: TelemetryStore + ?Sized>(
    store: &S,
    resident: Seq<Yielded>,
    query: engine::QueryModel,
    budgets: Seq<budget::BudgetModel>,
    pages: Seq<result::PageModel<RecordView>>,
    count: nat,
)
    requires
        obeys_scan_law(store, query.kind, resident),
        identified(resident),
        chained(store, query, budgets, pages),
        count < pages.len(),
    ensures
        accepted(query, continued(pages, count as int)),
        count > 0 ==> continued(pages, count as int) is Some && continued(
            pages,
            count as int,
        )->Some_0.snapshot == continued(pages, 1)->Some_0.snapshot,
        start_rank(resident, continued(pages, count as int)) <= stop_rank(
            resident,
            continued(pages, count as int),
        ) <= resident.len(),
        count > 0 && resident.len() <= SCAN_BATCH ==> stop_rank(
            resident,
            continued(pages, count as int),
        ) == resident.len(),
        all_items(pages.take(count as int)).len() + all_passed_over(pages.take(count as int))
            == matching(
            query.kind,
            query.filters,
            between(resident, 0, start_rank(resident, continued(pages, count as int))),
        ).len(),
        (forall|i: int| 0 <= i < count ==> passed_over(#[trigger] pages[i]) == 0) ==> all_items(
            pages.take(count as int),
        ) == matching(
            query.kind,
            query.filters,
            between(resident, 0, start_rank(resident, continued(pages, count as int))),
        ),
    decreases count,
{
    if count == 0 {
        assert(between(resident, 0, 0) =~= Seq::empty());
        assert(all_items(pages.take(0)) =~= matching(
            query.kind,
            query.filters,
            between(resident, 0, 0),
        ));
    } else {
        let index = count - 1;
        a_chain_so_far(store, resident, query, budgets, pages, index as nat);
        assert(may_continue(store, query, budgets, pages, index));
        let (session, after) = the_sessions_behind(store, query, budgets, pages, index);
        a_page_loses_nothing(
            store,
            resident,
            query,
            session,
            continued(pages, index),
            pages[index],
            after,
        );
        assert(pages[index].next_cursor is Some);
        let from = start_rank(resident, continued(pages, index));
        let upto = start_rank(resident, continued(pages, count as int));
        rank_is_a_count(resident, Some(continued(pages, count as int)->Some_0.snapshot));
        matching_joins(query.kind, query.filters, resident, 0, from, upto);
        assert(pages.take(count as int).drop_last() =~= pages.take(index));
        assert(pages.take(count as int).last() == pages[index]);
        if passed_over(pages[index]) == 0 {
            let all = matching(query.kind, query.filters, between(resident, from, upto));
            assert(all.take(pages[index].items.len() as int) =~= all);
        }
    }
}

/// Paging to the end accounts for everything once. Over a store that follows the
/// scan law, the pages of one query, each continuing the one before until one
/// is complete, return between them the records that the query selects inside
/// the snapshot that the first page fixed: none repeated, in the residency order,
/// and none lost but those that a page said it passed over, whatever the pages'
/// budgets were, if each admits a result. Where none said so, they return exactly
/// those records.
pub proof fn paging_returns_everything_once<S: TelemetryStore + ?Sized>(
    store: &S,
    resident: Seq<Yielded>,
    query: engine::QueryModel,
    budgets: Seq<budget::BudgetModel>,
    pages: Seq<result::PageModel<RecordView>>,
)
    requires
        obeys_scan_law(store, query.kind, resident),
        identified(resident),
        chained(store, query, budgets, pages),
        pages.last().parts[0] is Complete,
    ensures
        all_items(pages).len() + all_passed_over(pages) == asked_for(
            resident,
            query,
            pages,
        ).len(),
        (forall|i: int| 0 <= i < pages.len() ==> passed_over(#[trigger] pages[i]) == 0)
            ==> all_items(pages) == asked_for(resident, query, pages),
{
    let index = pages.len() - 1;
    a_chain_so_far(store, resident, query, budgets, pages, index as nat);
    assert(may_continue(store, query, budgets, pages, index));
    let (session, after) = the_sessions_behind(store, query, budgets, pages, index);
    a_page_loses_nothing(
        store,
        resident,
        query,
        session,
        continued(pages, index),
        pages[index],
        after,
    );
    let (resident_anchor, pulls) = the_walk_behind(
        store,
        query,
        session,
        continued(pages, index),
        pages[index],
        after,
    );
    assert(pages[index].next_cursor is None);
    let from = start_rank(resident, continued(pages, index));
    let upto = stop_rank(resident, continued(pages, index));
    matching_joins(query.kind, query.filters, resident, 0, from, upto);
    assert(pages.drop_last() =~= pages.take(index));
}

/// Whether a session's deadline passes at no reading of the clock.
pub open spec fn never_expires(session: budget::SessionModel) -> bool {
    forall|now: std::time::Instant| !(#[trigger] session.expired(now))
}

proof fn readings_do_not_matter(
    walk: WalkModel,
    yielded: Yielded,
    behind: int,
    a: Readings,
    b: Readings,
)
    requires
        never_expires(walk.session),
    ensures
        walk.judged(yielded, behind, a) == walk.judged(yielded, behind, b),
        never_expires(walk.judged(yielded, behind, a).session),
{
    reveal(WalkModel::judged);
    assert(!walk.session.expired(a.scan) && !walk.session.expired(b.scan));
    assert(!walk.session.expired(a.returned) && !walk.session.expired(b.returned));
    let after = walk.judged(yielded, behind, a);
    let examined = walk.examined(yielded.key, a.scan);
    assert(!examined.session.expired(a.returned) && !examined.session.expired(b.returned)) by {
        assert(examined.session.expired(a.returned) == walk.session.expired(a.returned));
        assert(examined.session.expired(b.returned) == walk.session.expired(b.returned));
    }
    let charged = examined.result_charged(a.returned);
    assert(!charged.session.expired(a.returned) && !charged.session.expired(b.returned)) by {
        assert(charged.session.expired(a.returned) == walk.session.expired(a.returned));
        assert(charged.session.expired(b.returned) == walk.session.expired(b.returned));
    }
    assert forall|now: std::time::Instant| !(#[trigger] after.session.expired(now)) by {
        assert(!walk.session.expired(now));
    }
}

proof fn a_batch_is_answered_one_way(walk: WalkModel, a: Pull, b: Pull, count: nat)
    requires
        never_expires(walk.session),
        a.records == b.records,
    ensures
        walk.judged_batch(a, count) == walk.judged_batch(b, count),
        never_expires(walk.judged_batch(a, count).session),
    decreases count,
{
    if count > 0 {
        a_batch_is_answered_one_way(walk, a, b, (count - 1) as nat);
        readings_do_not_matter(
            walk.judged_batch(a, (count - 1) as nat),
            a.records[count - 1],
            a.records.len() - count,
            a.readings[count - 1],
            b.readings[count - 1],
        );
    }
}

proof fn a_walk_is_answered_one_way<S: TelemetryStore + ?Sized>(
    start: WalkModel,
    store: &S,
    resident: Seq<Yielded>,
    a: Seq<Pull>,
    b: Seq<Pull>,
    count: nat,
)
    requires
        obeys_scan_law(store, start.kind, resident),
        never_expires(start.session),
        forall|i: int| 0 <= i < a.len() ==> #[trigger] start.may_pull(store, a, i),
        forall|i: int| 0 <= i < b.len() ==> #[trigger] start.may_pull(store, b, i),
        count <= a.len(),
        count <= b.len(),
    ensures
        start.walked(a.take(count as int)) == start.walked(b.take(count as int)),
        never_expires(start.walked(a.take(count as int)).session),
    decreases count,
{
    if count == 0 {
        assert(a.take(0) =~= b.take(0));
    } else {
        let index = count - 1;
        a_walk_is_answered_one_way(start, store, resident, a, b, index as nat);
        assert(start.may_pull(store, a, index) && start.may_pull(store, b, index));
        assert(a.take(count as int).drop_last() =~= a.take(index));
        assert(b.take(count as int).drop_last() =~= b.take(index));
        let walk = start.walked(a.take(index));
        let after = walk.after;
        assert(scan_law(resident, after, SCAN_BATCH, a[index].records, a[index].cursor));
        assert(scan_law(resident, after, SCAN_BATCH, b[index].records, b[index].cursor));
        let pulled = walk.pulled(a[index]);
        assert(pulled == walk.pulled(b[index]));
        assert forall|now: std::time::Instant| !(#[trigger] pulled.session.expired(now)) by {
            assert(!walk.session.expired(now));
        }
        a_batch_is_answered_one_way(pulled, a[index], b[index], a[index].records.len());
        let judged = pulled.judged_batch(a[index], a[index].records.len());
        let next = walk.after_pull(a[index]);
        assert forall|now: std::time::Instant| !(#[trigger] next.session.expired(now)) by {
            assert(!judged.session.expired(now));
        }
    }
}

/// Whether a session has room for all that a query selects of these records:
/// its deadline does not pass, it may return a record, and neither the byte
/// ceiling nor the scan ceiling is met.
pub open spec fn ample(
    session: budget::SessionModel,
    query: engine::QueryModel,
    resident: Seq<Yielded>,
) -> bool {
    &&& session.ledger.valid()
    &&& never_expires(session)
    &&& session.ledger.results.remaining >= 1
    &&& session.ledger.bytes.remaining >= total_evidence(
        matching(query.kind, query.filters, resident),
    )
    &&& session.ledger.scan.remaining >= resident.len()
}

proof fn evidence_joins(a: Seq<RecordView>, b: Seq<RecordView>)
    ensures
        total_evidence(a + b) == total_evidence(a) + total_evidence(b),
        total_evidence(b) >= 0,
    decreases b.len(),
{
    if b.len() == 0 {
        assert(a + b =~= a);
    } else {
        evidence_joins(a, b.drop_last());
        assert((a + b).drop_last() =~= a + b.drop_last());
    }
}

/// Where a walk stands at rank `at` that has room for all that is left.
spec fn unhurried(walk: WalkModel, resident: Seq<Yielded>, at: nat) -> bool {
    &&& walk.stopped is None
    &&& walk.counting is None
    &&& at <= resident.len()
    &&& never_expires(walk.session)
    &&& walk.session.ledger.scan.remaining + at >= resident.len()
    &&& walk.session.ledger.bytes.remaining >= total_evidence(
        matching(walk.kind, walk.filters, between(resident, at, resident.len())),
    )
    &&& walk.session.ledger.results.remaining >= 1 || walk.last_included is Some
}

/// Whether a walk is complete, or has returned all that it may and continues.
spec fn well_ended(walk: WalkModel) -> bool {
    match walk.stopped {
        Some(PartModel::Complete) => true,
        Some(PartModel::Degraded { dimension, position: PointModel::Cursor(_), .. }) => dimension
            == Dimension::Results && walk.session.ledger.results.remaining == 0,
        _ => false,
    }
}

proof fn an_unhurried_record_ends_well(
    walk: WalkModel,
    resident: Seq<Yielded>,
    at: nat,
    behind: int,
    readings: Readings,
)
    requires
        unhurried(walk, resident, at),
        at < resident.len(),
    ensures
        ({
            let after = walk.judged(resident[at as int], behind, readings);
            if after.stopped is None {
                unhurried(after, resident, at + 1)
            } else {
                well_ended(after)
            }
        }),
{
    let yielded = resident[at as int];
    readings_do_not_matter(walk, yielded, behind, readings, readings);
    assert(!walk.session.expired(readings.scan) && !walk.session.expired(readings.returned));
    let examined = walk.examined(yielded.key, readings.scan);
    assert(examined.session.expired(readings.returned) == walk.session.expired(readings.returned));
    let charged = examined.result_charged(readings.returned);
    assert(charged.session.expired(readings.returned) == walk.session.expired(readings.returned));
    matching_extends(walk.kind, walk.filters, resident, at, at);
    matching_joins(walk.kind, walk.filters, resident, at, at + 1, resident.len());
    let here = matching(walk.kind, walk.filters, between(resident, at, at + 1));
    let rest = matching(walk.kind, walk.filters, between(resident, at + 1, resident.len()));
    evidence_joins(here, rest);
    assert(between(resident, at, at) =~= Seq::empty());
    assert(Seq::<RecordView>::empty().push(yielded.record).drop_last() =~= Seq::empty());
    reveal_with_fuel(total_evidence, 2);
    reveal(WalkModel::judged);
}

proof fn an_unhurried_batch_ends_well(
    walk: WalkModel,
    resident: Seq<Yielded>,
    at: nat,
    upto: nat,
    pull: Pull,
    count: nat,
)
    requires
        unhurried(walk, resident, at),
        at <= upto <= resident.len(),
        pull.records == resident.subrange(at as int, upto as int),
        count <= pull.records.len(),
    ensures
        ({
            let after = walk.judged_batch(pull, count);
            if after.stopped is None {
                unhurried(after, resident, at + count)
            } else {
                well_ended(after)
            }
        }),
    decreases count,
{
    if count > 0 {
        an_unhurried_batch_ends_well(walk, resident, at, upto, pull, (count - 1) as nat);
        let before = walk.judged_batch(pull, (count - 1) as nat);
        if before.stopped is None {
            assert(pull.records[count - 1] == resident[at + count - 1]);
            an_unhurried_record_ends_well(
                before,
                resident,
                (at + count - 1) as nat,
                pull.records.len() - count,
                pull.readings[count - 1],
            );
        }
    }
}

proof fn an_unhurried_walk_ends_well<S: TelemetryStore + ?Sized>(
    start: WalkModel,
    store: &S,
    resident: Seq<Yielded>,
    pulls: Seq<Pull>,
    count: nat,
)
    requires
        obeys_scan_law(store, start.kind, resident),
        begins(start),
        unhurried(start, resident, rank(resident, start.after)),
        forall|i: int| 0 <= i < pulls.len() ==> #[trigger] start.may_pull(store, pulls, i),
        count <= pulls.len(),
    ensures
        ({
            let walk = start.walked(pulls.take(count as int));
            if walk.stopped is None {
                unhurried(
                    walk,
                    resident,
                    (rank(resident, start.after) + count * SCAN_BATCH) as nat,
                )
            } else {
                well_ended(walk)
            }
        }),
    decreases count,
{
    if count > 0 {
        let index = count - 1;
        an_unhurried_walk_ends_well(start, store, resident, pulls, index as nat);
        a_walk_is_lost_to_nothing(start, store, resident, pulls, index as nat);
        assert(start.may_pull(store, pulls, index));
        assert(pulls.take(count as int).drop_last() =~= pulls.take(index));
        assert(pulls.take(count as int).last() == pulls[index]);
        let walk = start.walked(pulls.take(index));
        let pull = pulls[index];
        let at = (rank(resident, start.after) + index * SCAN_BATCH) as nat;
        let upto = if at + SCAN_BATCH < resident.len() {
            (at + SCAN_BATCH) as nat
        } else {
            resident.len()
        };
        assert(scan_law(resident, walk.after, SCAN_BATCH, pull.records, pull.cursor));
        assert(unhurried(walk.pulled(pull), resident, at)) by {
            assert forall|now: std::time::Instant| !(#[trigger] walk.pulled(
                pull,
            ).session.expired(now)) by {
                assert(!walk.session.expired(now));
            }
        }
        let judged = walk.pulled(pull).judged_batch(pull, pull.records.len());
        an_unhurried_batch_ends_well(
            walk.pulled(pull),
            resident,
            at,
            upto,
            pull,
            pull.records.len(),
        );
        a_pull_is_lost_to_nothing(start, walk, resident, at, pull);
        let after = walk.after_pull(pull);
        if after.stopped is None {
            assert forall|now: std::time::Instant| !(#[trigger] after.session.expired(now)) by {
                assert(!judged.session.expired(now));
            }
        }
    }
}

/// A page on an ample budget is complete, or returns as many records as it may
/// and has a continuation. It passes over nothing.
#[verifier::rlimit(40)]
pub proof fn an_ample_page_is_complete_or_continues<S: TelemetryStore + ?Sized>(
    store: &S,
    resident: Seq<Yielded>,
    query: engine::QueryModel,
    session: budget::SessionModel,
    presented: Option<CursorModel>,
    page: result::PageModel<RecordView>,
    after: budget::SessionModel,
)
    requires
        obeys_scan_law(store, query.kind, resident),
        ample(session, query, resident),
        engine::may_walk_to(store, query, session, presented, page, after),
    ensures
        page.parts.len() == 1,
        passed_over(page) == 0,
        if page.next_cursor is None {
            page.parts[0] is Complete
        } else {
            page.items.len() == session.ledger.results.remaining
        },
{
    let (anchored, pulls) = the_walk_behind(store, query, session, presented, page, after);
    let start = engine::walk_start(query, session, presented, anchored);
    let walk = start.walked(pulls);
    let from = rank(resident, start.after);
    rank_is_a_count(resident, start.after);
    matching_joins(query.kind, query.filters, resident, 0, from, resident.len());
    assert(between(resident, 0, resident.len()) =~= resident);
    evidence_joins(
        matching(query.kind, query.filters, between(resident, 0, from)),
        matching(query.kind, query.filters, between(resident, from, resident.len())),
    );
    evidence_joins(
        Seq::empty(),
        matching(query.kind, query.filters, between(resident, 0, from)),
    );
    assert(unhurried(start, resident, from));
    an_unhurried_walk_ends_well(start, store, resident, pulls, pulls.len());
    assert(pulls.take(pulls.len() as int) =~= pulls);
    a_page_stays_within_its_budget(store, query, session, presented, page, after);
}

/// Whether a budget is ample whenever it is admitted.
pub open spec fn ample_budget(
    budget: budget::BudgetModel,
    query: engine::QueryModel,
    resident: Seq<Yielded>,
) -> bool {
    forall|at: std::time::Instant|
        ample(#[trigger] budget::SessionModel::admitted(budget, at), query, resident)
}

/// Paging until there is no continuation returns everything once. Over a store
/// that follows the scan law, the pages that [`engine::records`] returns of one
/// query, each on an ample budget and each for the continuation that the one
/// before gave, until one gives none, hold between them exactly the records that
/// the query selects inside the snapshot that the first page fixed, in the
/// residency order. Each page but the last holds as many as it may, and the last
/// is complete. The snapshot holds every record if there was one page alone, or
/// if one batch holds them.
pub proof fn paging_until_no_continuation_returns_everything<S: TelemetryStore + ?Sized>(
    store: &S,
    resident: Seq<Yielded>,
    query: engine::QueryModel,
    budgets: Seq<budget::BudgetModel>,
    pages: Seq<result::PageModel<RecordView>>,
)
    requires
        obeys_scan_law(store, query.kind, resident),
        identified(resident),
        chained(store, query, budgets, pages),
        forall|i: int|
            0 <= i < pages.len() ==> ample_budget(#[trigger] budgets[i], query, resident),
        pages.last().next_cursor is None,
    ensures
        pages.last().parts == seq![PartModel::Complete],
        forall|i: int|
            0 <= i < pages.len() - 1 ==> (#[trigger] pages[i]).items.len()
                == budgets[i].max_results,
        all_items(pages) == asked_for(resident, query, pages),
        pages.len() == 1 || resident.len() <= SCAN_BATCH ==> all_items(pages) == matching(
            query.kind,
            query.filters,
            resident,
        ),
{
    assert forall|i: int| 0 <= i < pages.len() implies passed_over(#[trigger] pages[i]) == 0 && (
    pages[i].next_cursor is Some ==> pages[i].items.len() == budgets[i].max_results) && (
    pages[i].next_cursor is None ==> pages[i].parts == seq![PartModel::Complete]) by {
        assert(may_continue(store, query, budgets, pages, i));
        let (session, after) = the_sessions_behind(store, query, budgets, pages, i);
        assert(ample_budget(budgets[i], query, resident));
        an_ample_page_is_complete_or_continues(
            store,
            resident,
            query,
            session,
            continued(pages, i),
            pages[i],
            after,
        );
        assert(pages[i].next_cursor is None ==> pages[i].parts =~= seq![PartModel::Complete]);
    }
    assert(pages[pages.len() - 1].next_cursor is None);
    paging_returns_everything_once(store, resident, query, budgets, pages);
    a_chain_so_far(store, resident, query, budgets, pages, (pages.len() - 1) as nat);
    assert(between(resident, 0, resident.len()) =~= resident);
}

proof fn matching_are_among(
    kind: SignalKind,
    filters: FilterModel,
    records: Seq<Yielded>,
    index: int,
) -> (at: int)
    requires
        0 <= index < matching(kind, filters, records).len(),
    ensures
        0 <= at < records.len(),
        records[at].record == matching(kind, filters, records)[index],
    decreases records.len(),
{
    if index < matching(kind, filters, records.drop_last()).len() {
        matching_are_among(kind, filters, records.drop_last(), index)
    } else {
        records.len() - 1
    }
}

/// Whether a record is resident after a cursor's anchor and inside its snapshot.
pub open spec fn lies_ahead(
    resident: Seq<Yielded>,
    cursor: CursorModel,
    record: RecordView,
) -> bool {
    exists|i: int|
        {
            &&& 0 <= i < resident.len()
            &&& (#[trigger] resident[i]).record == record
            &&& order::key_precedes(anchor_of(cursor), resident[i].key)
            &&& within(Some(cursor.snapshot), resident[i].key)
        }
}

/// A continuation stays inside its snapshot, whatever was admitted or evicted
/// since the cursor was given: over a store that follows the scan law, every
/// record of the page that [`engine::records`] returns for it is resident after
/// the cursor's anchor and inside its snapshot. The page says so first in its
/// coverage, and its own continuation has the same snapshot and fingerprint.
pub proof fn a_continuation_stays_inside_its_snapshot<S: TelemetryStore + ?Sized>(
    store: &S,
    resident: Seq<Yielded>,
    query: engine::QueryModel,
    budget: budget::BudgetModel,
    cursor: CursorModel,
    page: result::PageModel<RecordView>,
)
    requires
        obeys_scan_law(store, query.kind, resident),
        identified(resident),
        cursor.valid(),
        well_placed(cursor),
        engine::may_return(store, query, budget, Some(cursor.encoding()), page),
    ensures
        forall|i: int|
            0 <= i < page.items.len() ==> lies_ahead(
                resident,
                cursor,
                #[trigger] page.items[i],
            ),
        page.coverage.len() > 0,
        page.coverage[0] == (CoverageEntry::SnapshotBoundary { admission: cursor.snapshot }),
        page.next_cursor matches Some(bytes) ==> cursor::decoding(bytes) matches Some(next) && {
            &&& next.snapshot == cursor.snapshot
            &&& next.fingerprint == cursor.fingerprint
            &&& well_placed(next)
        },
{
    cursor::decoding_undoes_encoding(cursor);
    let presented = Some(cursor);
    let at = choose|at: std::time::Instant|
        engine::may_answer(
            store,
            query,
            #[trigger] budget::SessionModel::admitted(budget, at),
            presented,
            page,
        );
    let session = budget::SessionModel::admitted(budget, at);
    if budget.max_results > 0 {
        let after = choose|after: budget::SessionModel| #[trigger]
            engine::may_walk_to(store, query, session, presented, page, after);
        a_page_loses_nothing(store, resident, query, session, presented, page, after);
        let (anchored, pulls) = the_walk_behind(store, query, session, presented, page, after);
        a_continuation_names_its_boundary_and_its_gap(
            store,
            query,
            session,
            presented,
            anchored,
            pulls,
        );
        let from = start_rank(resident, presented);
        let stop = stop_rank(resident, presented);
        rank_is_a_count(resident, Some(cursor.snapshot));
        a_rank_grows_with_its_position(resident, anchor_of(cursor), cursor.snapshot);
        let upto = match page.next_cursor {
            Some(bytes) => start_rank(resident, cursor::decoding(bytes)),
            None => stop,
        };
        assert forall|i: int| 0 <= i < page.items.len() implies lies_ahead(
            resident,
            cursor,
            #[trigger] page.items[i],
        ) by {
            let seen = between(resident, from, upto);
            let index = matching_are_among(query.kind, query.filters, seen, i) + from;
            assert(resident[index].record == page.items[i]);
            rank_divides(resident, anchor_of(cursor), index);
            rank_divides(resident, cursor.snapshot, index);
        }
    }
}

proof fn a_rank_grows_with_its_position(
    resident: Seq<Yielded>,
    earlier: AdmissionKey,
    later: AdmissionKey,
)
    requires
        ordered(resident),
        !order::key_precedes(later, earlier),
    ensures
        rank(resident, Some(earlier)) <= rank(resident, Some(later)),
{
    rank_is_a_count(resident, Some(earlier));
    rank_is_a_count(resident, Some(later));
    let last = rank(resident, Some(earlier)) - 1;
    if last >= 0 {
        rank_divides(resident, earlier, last);
        rank_divides(resident, later, last);
        order::key_order_is_total(later, resident[last].key, earlier);
        order::key_order_is_total(earlier, resident[last].key, later);
    }
}

/// One question has one answer. Over a store that follows the scan law and says
/// one thing of each entity, two pages of one query, continued from one place
/// on one budget whose deadline does not pass, are the same page, and leave the
/// same session.
pub proof fn one_question_has_one_answer<S: TelemetryStore + ?Sized>(
    store: &S,
    resident: Seq<Yielded>,
    query: engine::QueryModel,
    session: budget::SessionModel,
    presented: Option<CursorModel>,
    page: result::PageModel<RecordView>,
    after: budget::SessionModel,
    other_page: result::PageModel<RecordView>,
    other_after: budget::SessionModel,
)
    requires
        obeys_scan_law(store, query.kind, resident),
        forall|entity: EntityId|
            !(#[trigger] store.may_find(query.kind, entity, true) && store.may_find(
                query.kind,
                entity,
                false,
            )),
        never_expires(session),
        engine::may_walk_to(store, query, session, presented, page, after),
        engine::may_walk_to(store, query, session, presented, other_page, other_after),
    ensures
        page == other_page,
        after == other_after,
{
    let (anchored, a) = the_walk_behind(store, query, session, presented, page, after);
    let (other_anchored, b) = the_walk_behind(
        store,
        query,
        session,
        presented,
        other_page,
        other_after,
    );
    if let Some(cursor) = presented {
        assert(store.may_find(query.kind, cursor.last_entity, anchored));
        assert(store.may_find(query.kind, cursor.last_entity, other_anchored));
        if anchored != other_anchored {
            assert(store.may_find(query.kind, cursor.last_entity, true));
        }
    }
    let start = engine::walk_start(query, session, presented, anchored);
    let shorter = if a.len() <= b.len() {
        a.len()
    } else {
        b.len()
    };
    a_walk_is_answered_one_way(start, store, resident, a, b, shorter);
    assert(a.take(a.len() as int) =~= a);
    assert(b.take(b.len() as int) =~= b);
    if a.len() < b.len() {
        assert(start.may_pull(store, b, a.len() as int));
    }
    if b.len() < a.len() {
        assert(start.may_pull(store, a, b.len() as int));
    }
}

/// A page that begins past its deadline is refused, on a first page and on a
/// continuation alike: where the store's first record lies inside the snapshot
/// and the clock says at its charge that the deadline has passed, the page
/// returns nothing, gives no continuation, and names the deadline, its limit
/// and the time that had elapsed.
pub proof fn a_page_past_its_deadline_is_refused<S: TelemetryStore + ?Sized>(
    store: &S,
    query: engine::QueryModel,
    session: budget::SessionModel,
    presented: Option<CursorModel>,
    resident: bool,
    pulls: Seq<Pull>,
)
    requires
        engine::walk_start(query, session, presented, resident).may_walk(store, pulls),
        pulls.len() > 0,
        pulls[0].records.len() > 0,
        presented matches Some(cursor) ==> !order::key_precedes(
            cursor.snapshot,
            pulls[0].records[0].key,
        ),
        session.expired(pulls[0].readings[0].scan),
    ensures
        ({
            let page = engine::walk_start(query, session, presented, resident).walked(pulls).page();
            &&& page.items.len() == 0
            &&& page.next_cursor is None
            &&& page.parts == seq![
                PartModel::Refused(session.deadline_refusal(pulls[0].readings[0].scan)),
            ]
        }),
{
    reveal(WalkModel::judged);
    let start = engine::walk_start(query, session, presented, resident);
    let pull = pulls[0];
    let first = start.pulled(pull);
    assert(start.may_pull(store, pulls, 0));
    assert(first.judged_batch(pull, 0) == first);
    let judged = first.judged_batch(pull, 1);
    assert(first.verdict(pull.records[0], pull.readings[0]) == Verdict::ScanRefused(
        session.deadline_refusal(pull.readings[0].scan),
    ));
    assert(judged.stopped is Some);
    walk::judged_batch_stays_stopped(first, pull, 1, pull.records.len());
    assert(pulls.take(1).drop_last() =~= pulls.take(0));
    assert(start.walked(pulls.take(0)) == start);
    assert(start.walked(pulls.take(1)) == start.after_pull(pull));
    if pulls.len() > 1 {
        assert(start.may_pull(store, pulls, 1));
    }
    assert(pulls.take(1) =~= pulls);
}

/// Whether the records that a page returned are the selected ones up to rank
/// `returned`, and those that it omits the selected ones from there up to rank
/// `seen`, as far as they count.
pub open spec fn counted_up_to(
    resident: Seq<Yielded>,
    query: engine::QueryModel,
    presented: Option<CursorModel>,
    page: result::PageModel<RecordView>,
    after: budget::SessionModel,
    omitted: u64,
    returned: nat,
    seen: nat,
) -> bool {
    &&& start_rank(resident, presented) <= returned <= seen <= resident.len()
    &&& page.items == matching(
        query.kind,
        query.filters,
        between(resident, start_rank(resident, presented), returned),
    )
    &&& omitted == omissions(
        matching(query.kind, query.filters, between(resident, returned, seen)),
        after.ledger.bytes.remaining,
        names_a_tail(page.coverage),
    )
    &&& if names_a_tail(page.coverage) {
        cut_after(page.coverage, resident, seen)
    } else {
        seen == stop_rank(resident, presented)
    }
}

/// Over a store that follows the scan law, a page that the byte ceiling cut
/// names how many selected records behind those that it returned it omits.
/// Either it saw all in the snapshot, and omits those that do not fit what is
/// left of the ceiling. Or it says that the count itself was cut, and names the
/// last record that it saw; then it omits all selected ones up to there. A page
/// cut by anything else counts nothing.
pub proof fn a_page_counts_what_it_omits<S: TelemetryStore + ?Sized>(
    store: &S,
    resident: Seq<Yielded>,
    query: engine::QueryModel,
    session: budget::SessionModel,
    presented: Option<CursorModel>,
    page: result::PageModel<RecordView>,
    after: budget::SessionModel,
)
    requires
        obeys_scan_law(store, query.kind, resident),
        identified(resident),
        session.ledger.valid(),
        accepted(query, presented),
        engine::may_walk_to(store, query, session, presented, page, after),
    ensures
        page.parts[0] matches PartModel::Degraded { dimension, omitted, .. } ==> if dimension
            == Dimension::Bytes {
            exists|returned: nat, seen: nat|
                #[trigger] counted_up_to(
                    resident,
                    query,
                    presented,
                    page,
                    after,
                    omitted,
                    returned,
                    seen,
                )
        } else {
            omitted == 0
        },
{
    let (anchored, pulls) = the_walk_behind(store, query, session, presented, page, after);
    let start = engine::walk_start(query, session, presented, anchored);
    let walk = start.walked(pulls);
    a_walk_is_lost_to_nothing(start, store, resident, pulls, pulls.len());
    assert(pulls.take(pulls.len() as int) =~= pulls);
    if let PartModel::Degraded { dimension, omitted, .. } = page.parts[0] {
        let outcome = page.parts[0];
        assert(counts_truly(start, walk, resident, outcome));
        if dimension == Dimension::Bytes {
            let returned = returned_rank(start, walk, resident);
            let seen = choose|seen: nat|
                #[trigger] saw(start, walk, resident, seen) && omitted == omissions(
                    matching(start.kind, start.filters, between(resident, returned, seen)),
                    walk.session.ledger.bytes.remaining,
                    names_a_tail(walk.coverage),
                );
            assert(counted_up_to(
                resident,
                query,
                presented,
                page,
                after,
                omitted,
                returned,
                seen,
            ));
        }
    }
}

/// The bytes that a record is accounted with, as it says itself: a span, a log
/// record, or a metric point in any of its shapes.
pub open spec fn accounted(record: RecordView) -> nat {
    match record {
        RecordView::Span(span) => span.accounted_size as nat,
        RecordView::LogRecord(log) => log.accounted_size as nat,
        RecordView::MetricPoint { point, .. } => match *point {
            MetricPoint::Number(number) => number.accounted_size as nat,
            MetricPoint::Histogram(shape) => shape.accounted_size as nat,
            MetricPoint::ExponentialHistogram(shape) => shape.accounted_size as nat,
            MetricPoint::Summary(shape) => shape.accounted_size as nat,
        },
    }
}

/// The bytes that records are accounted with together.
pub open spec fn all_accounted(records: Seq<RecordView>) -> nat
    decreases records.len(),
{
    if records.len() == 0 {
        0
    } else {
        all_accounted(records.drop_last()) + accounted(records.last())
    }
}

/// The evidence of a record is what the record is accounted with.
pub proof fn the_evidence_of_a_record_is_its_size(record: RecordView)
    ensures
        walk::evidence(record) == accounted(record),
{
}

/// The evidence of records is what they are accounted with together.
pub proof fn the_evidence_of_records_is_their_sizes(records: Seq<RecordView>)
    ensures
        total_evidence(records) == all_accounted(records),
    decreases records.len(),
{
    if records.len() > 0 {
        the_evidence_of_records_is_their_sizes(records.drop_last());
        the_evidence_of_a_record_is_its_size(records.last());
    }
}

/// Every page that a query is answered with fits the ceilings that its budget was
/// made with: it has no more records than results were allowed, and they are
/// accounted with no more bytes than were. Each is of the query's kind, and one
/// that the query's filters match.
pub proof fn every_page_fits_its_ceilings<S: TelemetryStore + ?Sized>(
    store: &S,
    query: RecordsQuery,
    ceilings: (std::time::Duration, u64, u64, u64, u64),
    budget: QueryBudget,
    continuation: Option<&[u8]>,
    page: Page<RecordView>,
    kind: SignalKind,
    set: &RecordsFilters,
    index: int,
    matched: bool,
)
    requires
        call_ensures(QueryBudget::new, ceilings, budget),
        call_ensures(engine::records::<S>, (store, &query, budget, continuation), Ok(page)),
        call_ensures(RecordsQuery::kind, (&query,), kind),
        call_ensures(RecordsQuery::filters, (&query,), set),
        0 <= index < page.items@.len() ==> call_ensures(
            RecordsFilters::matches,
            (set, &page.items@[index]),
            matched,
        ),
    ensures
        page.items@.len() <= ceilings.1,
        all_accounted(page.items@) <= ceilings.2,
        0 <= index < page.items@.len() ==> {
            &&& matched
            &&& match page.items@[index] {
                RecordView::Span(_) => kind == SignalKind::Spans,
                RecordView::LogRecord(_) => kind == SignalKind::LogRecords,
                RecordView::MetricPoint { .. } => kind == SignalKind::MetricPoints,
            }
        },
{
    let presented = engine::presented_cursor(query@, engine::bytes_of(continuation))->Ok_0;
    let at = choose|at: std::time::Instant|
        engine::may_answer(
            store,
            query@,
            #[trigger] budget::SessionModel::admitted(budget@, at),
            presented,
            page@,
        );
    let session = budget::SessionModel::admitted(budget@, at);
    if ceilings.1 > 0 {
        let after = choose|after: budget::SessionModel| #[trigger]
            engine::may_walk_to(store, query@, session, presented, page@, after);
        a_page_stays_within_its_budget(store, query@, session, presented, page@, after);
        the_evidence_of_records_is_their_sizes(page.items@);
        if 0 <= index < page.items@.len() {
            assert(walk::of_kind(query@.kind, page@.items[index]));
        }
    }
}

}
