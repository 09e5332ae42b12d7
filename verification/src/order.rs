//! The total order over records.
//!
//! Records are ordered by admission time, and ties are broken by entity id:
//! wire identities come before assigned ones, wire identities by their bytes
//! and assigned ones by their serials. Every order key ties into the same
//! entity order, so an ordering is never ambiguous and pagination is stable.

use crate::model::EntityId;
use crate::storage::AdmissionKey;
use crate::{model, storage};
use vstd::prelude::*;

verus! {

/// Whether `a` precedes `b` byte by byte; a proper prefix precedes.
pub open spec fn bytes_precede(a: Seq<u8>, b: Seq<u8>) -> bool
    decreases a.len(),
{
    if b.len() == 0 {
        false
    } else if a.len() == 0 {
        true
    } else {
        a[0] < b[0] || (a[0] == b[0] && bytes_precede(a.drop_first(), b.drop_first()))
    }
}

/// Whether `a` precedes `b` in the entity order.
pub open spec fn entity_precedes(a: EntityId, b: EntityId) -> bool {
    match (a, b) {
        (
            EntityId::Span { trace_id: ta, span_id: sa },
            EntityId::Span { trace_id: tb, span_id: sb },
        ) => bytes_precede(ta@, tb@) || (ta@ == tb@ && bytes_precede(sa@, sb@)),
        (EntityId::Span { .. }, EntityId::Assigned(_)) => true,
        (EntityId::Assigned(_), EntityId::Span { .. }) => false,
        (EntityId::Assigned(ia), EntityId::Assigned(ib)) => ia@ < ib@,
    }
}

/// Whether `a` precedes `b` in the residency order.
pub open spec fn key_precedes(a: AdmissionKey, b: AdmissionKey) -> bool {
    a.nanos() < b.nanos() || (a.nanos() == b.nanos() && entity_precedes(a.entity_id(), b.entity_id()))
}

proof fn bytes_order(a: Seq<u8>, b: Seq<u8>, c: Seq<u8>)
    ensures
        !bytes_precede(a, a),
        bytes_precede(a, b) || bytes_precede(b, a) || a == b,
        bytes_precede(a, b) && bytes_precede(b, c) ==> bytes_precede(a, c),
        !(bytes_precede(a, b) && bytes_precede(b, a)),
    decreases a.len(),
{
    if a.len() > 0 && b.len() > 0 && c.len() > 0 {
        bytes_order(a.drop_first(), b.drop_first(), c.drop_first());
    }
    if a.len() > 0 {
        bytes_order(a.drop_first(), a.drop_first(), Seq::empty());
        if b.len() > 0 {
            bytes_order(a.drop_first(), b.drop_first(), Seq::empty());
            if a[0] == b[0] && a.drop_first() == b.drop_first() {
                assert(a =~= seq![a[0]] + a.drop_first());
                assert(b =~= seq![b[0]] + b.drop_first());
            }
        }
    }
    if a.len() == 0 && b.len() == 0 {
        assert(a =~= b);
    }
}

/// The entity order is a strict total order.
pub proof fn entity_order_is_total(a: EntityId, b: EntityId, c: EntityId)
    ensures
        !entity_precedes(a, a),
        entity_precedes(a, b) || entity_precedes(b, a) || a == b,
        !(entity_precedes(a, b) && entity_precedes(b, a)),
        entity_precedes(a, b) && entity_precedes(b, c) ==> entity_precedes(a, c),
{
    if let EntityId::Span { trace_id: ta, span_id: sa } = a {
        bytes_order(ta@, ta@, ta@);
        bytes_order(sa@, sa@, sa@);
        if let EntityId::Span { trace_id: tb, span_id: sb } = b {
            bytes_order(ta@, tb@, ta@);
            bytes_order(sa@, sb@, sa@);
            model::trace_id_is_its_bytes(ta, tb);
            model::span_id_is_its_bytes(sa, sb);
            if let EntityId::Span { trace_id: tc, span_id: sc } = c {
                bytes_order(ta@, tb@, tc@);
                bytes_order(sa@, sb@, sc@);
            }
        }
    }
    if let EntityId::Assigned(ia) = a {
        if let EntityId::Assigned(ib) = b {
            model::assigned_id_is_its_serial(ia, ib);
        }
    }
}

/// The residency order is a strict total order.
pub proof fn key_order_is_total(a: AdmissionKey, b: AdmissionKey, c: AdmissionKey)
    ensures
        !key_precedes(a, a),
        key_precedes(a, b) || key_precedes(b, a) || a == b,
        !(key_precedes(a, b) && key_precedes(b, a)),
        key_precedes(a, b) && key_precedes(b, c) ==> key_precedes(a, c),
{
    entity_order_is_total(a.entity_id(), b.entity_id(), c.entity_id());
    storage::admission_key_is_its_parts(a, b);
}

/// Whether `a` precedes `b` byte by byte; a proper prefix precedes.
fn precedes_bytes(a: &[u8], b: &[u8]) -> (precedes: bool)
    ensures
        precedes == bytes_precede(a@, b@),
{
    let mut i: usize = 0;
    assert(a@.skip(0) =~= a@);
    assert(b@.skip(0) =~= b@);
    while i < a.len() && i < b.len()
        invariant
            i <= a@.len(),
            i <= b@.len(),
            bytes_precede(a@, b@) == bytes_precede(a@.skip(i as int), b@.skip(i as int)),
        decreases a@.len() - i,
    {
        assert(a@.skip(i as int).drop_first() =~= a@.skip(i + 1));
        assert(b@.skip(i as int).drop_first() =~= b@.skip(i + 1));
        if a[i] < b[i] {
            return true;
        }
        if b[i] < a[i] {
            return false;
        }
        i += 1;
    }
    i < b.len()
}

/// Whether `a` precedes `b` in the entity order.
pub fn precedes_entity(a: EntityId, b: EntityId) -> (precedes: bool)
    ensures
        precedes == entity_precedes(a, b),
{
    match (a, b) {
        (
            EntityId::Span { trace_id: ta, span_id: sa },
            EntityId::Span { trace_id: tb, span_id: sb },
        ) => {
            let (ta, tb) = (ta.as_bytes(), tb.as_bytes());
            if precedes_bytes(&ta, &tb) {
                return true;
            }
            proof {
                bytes_order(ta@, tb@, ta@);
            }
            if precedes_bytes(&tb, &ta) {
                return false;
            }
            precedes_bytes(&sa.as_bytes(), &sb.as_bytes())
        },
        (EntityId::Span { .. }, EntityId::Assigned(_)) => true,
        (EntityId::Assigned(_), EntityId::Span { .. }) => false,
        (EntityId::Assigned(ia), EntityId::Assigned(ib)) => ia.serial().get() < ib.serial().get(),
    }
}

/// Whether `a` precedes `b` in the residency order.
pub fn precedes_key(a: AdmissionKey, b: AdmissionKey) -> (precedes: bool)
    ensures
        precedes == key_precedes(a, b),
{
    let (at, bt) = (a.admitted_at().as_unix_nano(), b.admitted_at().as_unix_nano());
    at < bt || (at == bt && precedes_entity(a.entity(), b.entity()))
}

/// Whether `a` and `b` may stand in this order: `b`'s order key and entity do
/// not come before `a`'s, whatever the two functions say of them.
pub open spec fn in_order<T, K: Fn(&T) -> u64, E: Fn(&T) -> EntityId>(
    key: K,
    entity: E,
    a: T,
    b: T,
) -> bool {
    forall|ka: u64, ea: EntityId, kb: u64, eb: EntityId|
        key.ensures((&a,), ka) && entity.ensures((&a,), ea) && key.ensures((&b,), kb)
            && entity.ensures((&b,), eb) ==> !(#[trigger] ranks_before(kb, eb, ka, ea))
}

/// Whether a record of key `ka` and entity `ea` comes before one of `kb` and
/// `eb`.
pub open spec fn ranks_before(ka: u64, ea: EntityId, kb: u64, eb: EntityId) -> bool {
    ka < kb || (ka == kb && entity_precedes(ea, eb))
}

/// Whether each function says one thing of each record.
pub open spec fn single_valued<T, K: Fn(&T) -> u64, E: Fn(&T) -> EntityId>(
    key: K,
    entity: E,
) -> bool {
    &&& forall|t: &T, x: u64, y: u64|
        #![trigger key.ensures((t,), x), key.ensures((t,), y)]
        key.ensures((t,), x) && key.ensures((t,), y) ==> x == y
    &&& forall|t: &T, x: EntityId, y: EntityId|
        #![trigger entity.ensures((t,), x), entity.ensures((t,), y)]
        entity.ensures((t,), x) && entity.ensures((t,), y) ==> x == y
}

proof fn ranking_is_total(
    ka: u64,
    ea: EntityId,
    kb: u64,
    eb: EntityId,
    kc: u64,
    ec: EntityId,
)
    ensures
        !(ranks_before(ka, ea, kb, eb) && ranks_before(kb, eb, ka, ea)),
        ranks_before(ka, ea, kb, eb) && !ranks_before(kc, ec, kb, eb) ==> ranks_before(
            ka,
            ea,
            kc,
            ec,
        ),
{
    entity_order_is_total(ea, eb, ec);
    entity_order_is_total(ea, eb, ea);
    entity_order_is_total(eb, ec, ea);
}

/// The place of a record in `sorted`: behind everything that it does not come
/// before.
fn place_of<T, K: Fn(&T) -> u64, E: Fn(&T) -> EntityId>(
    sorted: &Vec<T>,
    key: &K,
    entity: &E,
    record: &T,
) -> (place: usize)
    requires
        forall|t: &T| #[trigger] key.requires((t,)),
        forall|t: &T| #[trigger] entity.requires((t,)),
        single_valued(*key, *entity),
        forall|i: int, j: int|
            0 <= i < j < sorted@.len() ==> in_order(
                *key,
                *entity,
                #[trigger] sorted@[i],
                #[trigger] sorted@[j],
            ),
    ensures
        place <= sorted@.len(),
        forall|i: int|
            0 <= i < place ==> in_order(*key, *entity, #[trigger] sorted@[i], *record),
        forall|j: int|
            place <= j < sorted@.len() ==> in_order(*key, *entity, *record, #[trigger] sorted@[j]),
{
    let record_key: u64 = key(record);
    let record_entity = entity(record);
    let mut place: usize = 0;
    while place < sorted.len()
        invariant
            place <= sorted@.len(),
            forall|t: &T| #[trigger] key.requires((t,)),
            forall|t: &T| #[trigger] entity.requires((t,)),
            single_valued(*key, *entity),
            key.ensures((record,), record_key),
            entity.ensures((record,), record_entity),
            forall|i: int, j: int|
                0 <= i < j < sorted@.len() ==> in_order(
                    *key,
                    *entity,
                    #[trigger] sorted@[i],
                    #[trigger] sorted@[j],
                ),
            forall|i: int|
                0 <= i < place ==> in_order(*key, *entity, #[trigger] sorted@[i], *record),
        decreases sorted@.len() - place,
    {
        let other = &sorted[place];
        let other_key: u64 = key(other);
        let other_entity = entity(other);
        if record_key < other_key || (record_key == other_key && precedes_entity(
            record_entity,
            other_entity,
        )) {
            proof {
                assert forall|j: int| place <= j < sorted@.len() implies in_order(
                    *key,
                    *entity,
                    *record,
                    #[trigger] sorted@[j],
                ) by {
                    assert forall|ka: u64, ea: EntityId, kb: u64, eb: EntityId|
                        key.ensures((record,), ka) && entity.ensures((record,), ea)
                            && key.ensures((&sorted@[j],), kb) && entity.ensures(
                            (&sorted@[j],),
                            eb,
                        ) implies !(#[trigger] ranks_before(kb, eb, ka, ea)) by {
                        if j > place {
                            assert(in_order(*key, *entity, sorted@[place as int], sorted@[j]));
                            assert(!ranks_before(kb, eb, other_key, other_entity));
                        }
                        ranking_is_total(ka, ea, other_key, other_entity, kb, eb);
                        ranking_is_total(ka, ea, kb, eb, kb, eb);
                    }
                }
            }
            return place;
        }
        place += 1;
    }
    place
}

/// Sorts `records` by order key, ties broken by entity id.
pub fn sort_deterministically<T, K: Fn(&T) -> u64, E: Fn(&T) -> EntityId>(
    records: &mut Vec<T>,
    key: K,
    entity: E,
)
    requires
        forall|t: &T| #[trigger] key.requires((t,)),
        forall|t: &T| #[trigger] entity.requires((t,)),
        single_valued(key, entity),
    ensures
        final(records)@.to_multiset() == old(records)@.to_multiset(),
        forall|i: int, j: int|
            0 <= i < j < final(records)@.len() ==> in_order(
                key,
                entity,
                #[trigger] final(records)@[i],
                #[trigger] final(records)@[j],
            ),
{
    broadcast use vstd::seq_lib::group_to_multiset_ensures;

    let ghost all = records@;
    let mut sorted: Vec<T> = Vec::new();
    while records.len() > 0
        invariant
            forall|t: &T| #[trigger] key.requires((t,)),
            forall|t: &T| #[trigger] entity.requires((t,)),
            single_valued(key, entity),
            records@.to_multiset().add(sorted@.to_multiset()) =~= all.to_multiset(),
            forall|i: int, j: int|
                0 <= i < j < sorted@.len() ==> in_order(
                    key,
                    entity,
                    #[trigger] sorted@[i],
                    #[trigger] sorted@[j],
                ),
        decreases records@.len(),
    {
        let ghost before = records@;
        let ghost lesser = sorted@;
        let record = records.pop().unwrap();
        let place: usize = place_of(&sorted, &key, &entity, &record);
        sorted.insert(place, record);
        proof {
            assert(before =~= records@.push(record));
            vstd::seq_lib::to_multiset_build(records@, record);
            assert(sorted@.remove(place as int) =~= lesser);
            vstd::seq_lib::to_multiset_remove(sorted@, place as int);
            vstd::seq_lib::to_multiset_contains(sorted@, record);
            assert(sorted@[place as int] == record);
            assert(sorted@.to_multiset() =~= lesser.to_multiset().insert(record));
        }
    }
    proof {
        assert(records@.to_multiset() =~= vstd::multiset::Multiset::empty());
        assert(sorted@.to_multiset() =~= all.to_multiset());
    }
    *records = sorted;
}

proof fn the_first_difference_decides(a: Seq<u8>, b: Seq<u8>, index: int)
    requires
        0 <= index < a.len(),
        index < b.len(),
        forall|i: int| 0 <= i < index ==> #[trigger] a[i] == b[i],
        a[index] < b[index],
    ensures
        bytes_precede(a, b),
        !bytes_precede(b, a),
    decreases index,
{
    if index > 0 {
        assert(a[0] == b[0]);
        assert forall|i: int| 0 <= i < index - 1 implies #[trigger] a.drop_first()[i]
            == b.drop_first()[i] by {
            assert(a[i + 1] == b[i + 1]);
        }
        the_first_difference_decides(a.drop_first(), b.drop_first(), index - 1);
    }
}

/// Wire identities come before assigned ones, and assigned ones by their serials.
pub proof fn assigned_identities_come_last_by_their_serials(
    a: EntityId,
    b: EntityId,
    before: bool,
)
    requires
        call_ensures(precedes_entity, (a, b), before),
    ensures
        a is Span && b is Assigned ==> before,
        a is Assigned && b is Span ==> !before,
        a is Assigned && b is Assigned ==> before == (a->Assigned_0@ < b->Assigned_0@),
        a == b ==> !before,
{
    entity_order_is_total(a, b, a);
}

/// Wire identities come by the first byte in which their trace ids differ, and
/// inside a trace by the first in which their span ids do.
pub proof fn wire_identities_come_by_their_bytes(
    a: EntityId,
    b: EntityId,
    before: bool,
    index: int,
)
    requires
        call_ensures(precedes_entity, (a, b), before),
        a is Span,
        b is Span,
    ensures
        0 <= index < 16 && a->trace_id@[index] != b->trace_id@[index] && (forall|i: int|
            0 <= i < index ==> #[trigger] a->trace_id@[i] == b->trace_id@[i]) ==> before == (
        a->trace_id@[index] < b->trace_id@[index]),
        a->trace_id@ == b->trace_id@ && 0 <= index < 8 && a->span_id@[index] != b->span_id@[index]
            && (forall|i: int|
            0 <= i < index ==> #[trigger] a->span_id@[i] == b->span_id@[i]) ==> before == (
        a->span_id@[index] < b->span_id@[index]),
{
    let (ta, tb) = (a->trace_id@, b->trace_id@);
    let (sa, sb) = (a->span_id@, b->span_id@);
    model::trace_id_is_its_bytes(a->trace_id, b->trace_id);
    model::trace_id_is_its_bytes(b->trace_id, a->trace_id);
    model::span_id_is_its_bytes(a->span_id, b->span_id);
    model::span_id_is_its_bytes(b->span_id, a->span_id);
    bytes_order(ta, tb, ta);
    if 0 <= index < 16 && ta[index] != tb[index] && (forall|i: int|
        0 <= i < index ==> #[trigger] ta[i] == tb[i]) {
        assert forall|i: int| 0 <= i < index implies #[trigger] tb[i] == ta[i] by {
            assert(ta[i] == tb[i]);
        }
        if ta[index] < tb[index] {
            the_first_difference_decides(ta, tb, index);
        } else {
            the_first_difference_decides(tb, ta, index);
        }
    }
    if ta == tb && 0 <= index < 8 && sa[index] != sb[index] && (forall|i: int|
        0 <= i < index ==> #[trigger] sa[i] == sb[i]) {
        assert forall|i: int| 0 <= i < index implies #[trigger] sb[i] == sa[i] by {
            assert(sa[i] == sb[i]);
        }
        if sa[index] < sb[index] {
            the_first_difference_decides(sa, sb, index);
        } else {
            the_first_difference_decides(sb, sa, index);
        }
    }
}

/// Records stand by when they were admitted, the earlier one first, and those
/// admitted at once by their entities.
pub proof fn the_earlier_admission_comes_first(
    a: AdmissionKey,
    b: AdmissionKey,
    before: bool,
    by_entity: bool,
)
    requires
        call_ensures(precedes_key, (a, b), before),
        call_ensures(precedes_entity, (a.entity_id(), b.entity_id()), by_entity),
    ensures
        a.nanos() < b.nanos() ==> before,
        a.nanos() > b.nanos() ==> !before,
        a.nanos() == b.nanos() ==> before == by_entity,
{
}

/// Sorted records stand by their keys, the smaller one first, and those of one
/// key by their entities.
pub proof fn sorted_records_stand_by_their_keys<T, K: Fn(&T) -> u64, E: Fn(&T) -> EntityId>(
    key: K,
    entity: E,
    a: T,
    b: T,
    ka: u64,
    ea: EntityId,
    kb: u64,
    eb: EntityId,
)
    requires
        in_order(key, entity, a, b),
        key.ensures((&a,), ka),
        entity.ensures((&a,), ea),
        key.ensures((&b,), kb),
        entity.ensures((&b,), eb),
    ensures
        ka <= kb,
        ka == kb ==> ea == eb || entity_precedes(ea, eb),
{
    assert(!ranks_before(kb, eb, ka, ea));
    entity_order_is_total(ea, eb, ea);
}

}
