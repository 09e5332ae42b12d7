//! Opaque cursors, bound to their query and to their snapshot.
//!
//! A cursor says where an answer continues: a position in the total order, the
//! entity at that position, the fingerprint of the query it belongs to, and
//! the snapshot boundary that every later page stops at.
//!
//! # Byte layout
//!
//! Little-endian, with no padding and nothing else:
//!
//! | field                   | bytes                                          |
//! | ----------------------- | ---------------------------------------------- |
//! | position                | 8                                              |
//! | query fingerprint       | 8                                              |
//! | last entity             | tag `0`, trace id (16), span id (8); or        |
//! |                         | tag `1`, serial (8, never zero)                |
//! | snapshot admission time | 8                                              |
//! | snapshot entity         | as the last entity                             |
//!
//! The whole is 42 to 74 bytes long. Decoding accepts exactly these byte
//! strings. A cursor carries no authenticator: beyond the layout, the
//! fingerprint is all that is checked.

use crate::lease::SnapshotLease;
use crate::model::{AdmissionTime, AssignedId, EntityId, Serial, SpanId, TraceId};
use crate::storage::AdmissionKey;
use crate::{codec, model, storage};
use vstd::prelude::*;

verus! {

/// Bytes before the last entity: position and fingerprint.
pub const HEADER_LEN: usize = 16;

/// Marks a span's wire identity.
pub const SPAN_TAG: u8 = 0;

/// Marks an assigned identity.
pub const ASSIGNED_TAG: u8 = 1;

/// Bytes of a serial.
pub const SERIAL_LEN: usize = 8;

/// Bytes of a span's wire identity: trace id, then span id.
pub const SPAN_ID_REGION: usize = 24;

/// Bytes of the snapshot's admission time.
pub const SNAPSHOT_TIME_LEN: usize = 8;

/// The offset basis of the fingerprint.
pub const FINGERPRINT_BASIS: u64 = 0xcbf2_9ce4_8422_2325;

/// The prime of the fingerprint.
pub const FINGERPRINT_PRIME: u64 = 0x0000_0100_0000_01b3;

/// What a cursor says.
#[derive(Clone, Copy, Debug, PartialEq, Eq)]
pub struct CursorPayload {
    position: u64,
    last_entity: EntityId,
    fingerprint: u64,
    snapshot: AdmissionKey,
}

/// The mathematical reading of [`CursorPayload`].
pub ghost struct CursorModel {
    /// The position in the total order after which the answer continues.
    pub position: u64,
    /// The entity at that position.
    pub last_entity: EntityId,
    /// The fingerprint of the query that the cursor belongs to.
    pub fingerprint: u64,
    /// The last position inside the snapshot.
    pub snapshot: AdmissionKey,
}

/// Why a cursor was rejected.
#[derive(Clone, Copy, Debug, PartialEq, Eq)]
pub enum CursorError {
    /// The bytes are not a cursor's encoding.
    Malformed,
    /// The cursor belongs to another query.
    FingerprintMismatch,
    /// The cursor's snapshot is not the one that the lease pins.
    LeaseMismatch,
}

/// The encoding of a tagged entity id.
pub open spec fn entity_bytes(entity: EntityId) -> Seq<u8> {
    match entity {
        EntityId::Span { trace_id, span_id } => seq![SPAN_TAG] + trace_id@ + span_id@,
        EntityId::Assigned(id) => seq![ASSIGNED_TAG] + codec::le(id@),
    }
}

/// The encoding of a snapshot boundary.
pub open spec fn snapshot_bytes(boundary: AdmissionKey) -> Seq<u8> {
    codec::le(boundary.nanos()) + entity_bytes(boundary.entity_id())
}

impl CursorModel {
    /// Whether the cursor is one that can be held: assigned serials are never
    /// zero.
    pub open spec fn valid(self) -> bool {
        self.last_entity.valid() && self.snapshot.entity_id().valid()
    }

    /// The encoding of the cursor.
    pub open spec fn encoding(self) -> Seq<u8> {
        codec::le(self.position) + (codec::le(self.fingerprint) + (entity_bytes(self.last_entity)
            + snapshot_bytes(self.snapshot)))
    }
}

proof fn entity_bytes_length(entity: EntityId)
    ensures
        entity is Span ==> entity_bytes(entity).len() == 1 + SPAN_ID_REGION,
        entity is Assigned ==> entity_bytes(entity).len() == 1 + SERIAL_LEN,
        entity_bytes(entity)[0] == if entity is Span {
            SPAN_TAG
        } else {
            ASSIGNED_TAG
        },
{
    match entity {
        EntityId::Span { trace_id, span_id } => {
            model::trace_id_is_its_bytes(trace_id, trace_id);
            model::span_id_is_its_bytes(span_id, span_id);
        },
        EntityId::Assigned(id) => {
            codec::le_is_the_number(id@, id@);
        },
    }
}

/// No entity's encoding begins another's: what follows it is never ambiguous.
pub proof fn entity_bytes_are_prefix_free(a: EntityId, x: Seq<u8>, b: EntityId, y: Seq<u8>)
    requires
        entity_bytes(a) + x == entity_bytes(b) + y,
    ensures
        a == b,
        x == y,
{
    entity_bytes_length(a);
    entity_bytes_length(b);
    assert((entity_bytes(a) + x)[0] == entity_bytes(a)[0]);
    assert((entity_bytes(b) + y)[0] == entity_bytes(b)[0]);
    codec::heads_and_tails(entity_bytes(a), x, entity_bytes(b), y);
    match (a, b) {
        (
            EntityId::Span { trace_id: ta, span_id: sa },
            EntityId::Span { trace_id: tb, span_id: sb },
        ) => {
            model::trace_id_is_its_bytes(ta, tb);
            model::trace_id_is_its_bytes(tb, ta);
            codec::heads_and_tails(seq![SPAN_TAG] + ta@, sa@, seq![SPAN_TAG] + tb@, sb@);
            codec::heads_and_tails(seq![SPAN_TAG], ta@, seq![SPAN_TAG], tb@);
            model::span_id_is_its_bytes(sa, sb);
        },
        (EntityId::Assigned(ia), EntityId::Assigned(ib)) => {
            codec::heads_and_tails(
                seq![ASSIGNED_TAG],
                codec::le(ia@),
                seq![ASSIGNED_TAG],
                codec::le(ib@),
            );
            codec::le_is_the_number(ia@, ib@);
            model::assigned_id_is_its_serial(ia, ib);
        },
        _ => {},
    }
}

/// Two cursors with one encoding are one cursor.
pub proof fn encoding_is_injective(a: CursorModel, b: CursorModel)
    requires
        a.encoding() == b.encoding(),
    ensures
        a == b,
{
    codec::le_is_the_number(a.position, b.position);
    codec::le_is_the_number(b.position, a.position);
    codec::le_is_the_number(a.fingerprint, b.fingerprint);
    codec::le_is_the_number(b.fingerprint, a.fingerprint);
    let ra = entity_bytes(a.last_entity) + snapshot_bytes(a.snapshot);
    let rb = entity_bytes(b.last_entity) + snapshot_bytes(b.snapshot);
    codec::heads_and_tails(
        codec::le(a.position),
        codec::le(a.fingerprint) + ra,
        codec::le(b.position),
        codec::le(b.fingerprint) + rb,
    );
    codec::heads_and_tails(codec::le(a.fingerprint), ra, codec::le(b.fingerprint), rb);
    entity_bytes_are_prefix_free(
        a.last_entity,
        snapshot_bytes(a.snapshot),
        b.last_entity,
        snapshot_bytes(b.snapshot),
    );
    snapshot_bytes_are_injective(a.snapshot, b.snapshot);
}

/// The cursor that `bytes` encode, if they encode one.
pub open spec fn decoding(bytes: Seq<u8>) -> Option<CursorModel> {
    if exists|cursor: CursorModel| cursor.valid() && #[trigger] cursor.encoding() == bytes {
        Some(choose|cursor: CursorModel| cursor.valid() && #[trigger] cursor.encoding() == bytes)
    } else {
        None
    }
}

/// A cursor's bytes decode to that cursor.
pub proof fn decoding_undoes_encoding(cursor: CursorModel)
    requires
        cursor.valid(),
    ensures
        decoding(cursor.encoding()) == Some(cursor),
{
    let decoded = choose|other: CursorModel|
        other.valid() && #[trigger] other.encoding() == cursor.encoding();
    encoding_is_injective(decoded, cursor);
}

/// Bytes that decode are exactly the bytes of the cursor they decode to: no
/// two byte strings are one cursor.
pub proof fn encoding_undoes_decoding(bytes: Seq<u8>)
    ensures
        decoding(bytes) matches Some(cursor) ==> cursor.valid() && cursor.encoding() == bytes,
{
}

/// Two boundaries with one encoding are one boundary.
pub proof fn snapshot_bytes_are_injective(a: AdmissionKey, b: AdmissionKey)
    requires
        snapshot_bytes(a) == snapshot_bytes(b),
    ensures
        a == b,
{
    codec::le_is_the_number(a.nanos(), b.nanos());
    codec::le_is_the_number(b.nanos(), a.nanos());
    codec::heads_and_tails(
        codec::le(a.nanos()),
        entity_bytes(a.entity_id()),
        codec::le(b.nanos()),
        entity_bytes(b.entity_id()),
    );
    assert(entity_bytes(a.entity_id()) + Seq::<u8>::empty() =~= entity_bytes(b.entity_id())
        + Seq::<u8>::empty());
    entity_bytes_are_prefix_free(a.entity_id(), Seq::empty(), b.entity_id(), Seq::empty());
    storage::admission_key_is_its_parts(a, b);
}

/// A cursor's encoding is 42 to 74 bytes long.
pub proof fn encoding_length(cursor: CursorModel)
    ensures
        42 <= cursor.encoding().len() <= 74,
{
    codec::le_is_the_number(cursor.position, cursor.position);
    codec::le_is_the_number(cursor.fingerprint, cursor.fingerprint);
    codec::le_is_the_number(cursor.snapshot.nanos(), cursor.snapshot.nanos());
    entity_bytes_length(cursor.last_entity);
    entity_bytes_length(cursor.snapshot.entity_id());
}

/// Bytes of an entity's encoding behind its tag.
#[must_use]
pub fn id_region_len(entity: EntityId) -> (length: usize)
    ensures
        1 + length == entity_bytes(entity).len(),
        length <= SPAN_ID_REGION,
{
    proof {
        entity_bytes_length(entity);
    }
    match entity {
        EntityId::Span { .. } => SPAN_ID_REGION,
        EntityId::Assigned(_) => SERIAL_LEN,
    }
}

/// Appends one tagged entity id.
fn push_entity(bytes: &mut Vec<u8>, entity: EntityId)
    ensures
        final(bytes)@ == old(bytes)@ + entity_bytes(entity),
{
    match entity {
        EntityId::Span { trace_id, span_id } => {
            bytes.push(SPAN_TAG);
            codec::push_all(bytes, &trace_id.as_bytes());
            codec::push_all(bytes, &span_id.as_bytes());
        },
        EntityId::Assigned(assigned) => {
            bytes.push(ASSIGNED_TAG);
            codec::push_u64(bytes, assigned.serial().get());
        },
    }
    assert(bytes@ =~= old(bytes)@ + entity_bytes(entity));
}

/// Parses the tagged entity id that starts at `at`; also says where it ends.
fn parse_entity(bytes: &[u8], at: usize) -> (parsed: Option<(EntityId, usize)>)
    requires
        at <= bytes@.len(),
    ensures
        match parsed {
            Some((entity, end)) => {
                &&& entity.valid()
                &&& at <= end <= bytes@.len()
                &&& bytes@.subrange(at as int, end as int) == entity_bytes(entity)
            },
            None => forall|entity: EntityId, rest: Seq<u8>|
                entity.valid() ==> bytes@.skip(at as int) != #[trigger] (entity_bytes(entity) + rest),
        },
{
    let ghost tail = bytes@.skip(at as int);
    assert(bytes@.len() == bytes.len());
    proof {
        assert forall|entity: EntityId, rest: Seq<u8>|
            tail == #[trigger] (entity_bytes(entity) + rest) implies {
            &&& tail.len() >= entity_bytes(entity).len()
            &&& tail[0] == entity_bytes(entity)[0]
            &&& tail.take(entity_bytes(entity).len() as int) == entity_bytes(entity)
            &&& entity is Span ==> tail.len() >= 1 + SPAN_ID_REGION && tail[0] == SPAN_TAG
            &&& entity is Assigned ==> tail.len() >= 1 + SERIAL_LEN && tail[0]
                == ASSIGNED_TAG
        } by {
            entity_bytes_length(entity);
            assert(tail.take(entity_bytes(entity).len() as int) =~= entity_bytes(entity));
        }
    }
    if at == bytes.len() {
        return None;
    }
    let tag: u8 = bytes[at];
    let room: usize = bytes.len() - at - 1;
    if tag == SPAN_TAG {
        if room < SPAN_ID_REGION {
            return None;
        }
        let trace_id = TraceId::from_bytes(codec::sixteen_at(bytes, at + 1));
        let span_id = SpanId::from_bytes(codec::eight_at(bytes, at + 17));
        let entity = EntityId::Span { trace_id, span_id };
        assert(bytes@.subrange(at as int, at + 25) =~= entity_bytes(entity));
        return Some((entity, at + 25));
    }
    if tag == ASSIGNED_TAG {
        if room < SERIAL_LEN {
            return None;
        }
        let value: u64 = codec::read_u64(bytes, at + 1);
        match Serial::new(value) {
            None => {
                proof {
                    assert forall|entity: EntityId, rest: Seq<u8>|
                        entity.valid() implies tail != #[trigger] (entity_bytes(entity)
                        + rest) by {
                        if tail == entity_bytes(entity) + rest {
                            let id = entity->Assigned_0;
                            codec::le_is_the_number(id@, value);
                            assert(codec::le(id@) =~= entity_bytes(entity).skip(1));
                            assert(entity_bytes(entity).skip(1) =~= bytes@.subrange(
                                at + 1,
                                at + 9,
                            ));
                        }
                    }
                }
                return None;
            },
            Some(serial) => {
                let entity = EntityId::Assigned(AssignedId::from_serial(serial));
                assert(bytes@.subrange(at as int, at + 9) =~= entity_bytes(entity));
                return Some((entity, at + 9));
            },
        }
    }
    None
}

impl View for CursorPayload {
    type V = CursorModel;

    closed spec fn view(&self) -> CursorModel {
        CursorModel {
            position: self.position,
            last_entity: self.last_entity,
            fingerprint: self.fingerprint,
            snapshot: self.snapshot,
        }
    }
}

impl CursorPayload {
    /// The cursor that continues after `last_entity` at `position`, for the
    /// query with this fingerprint, inside `snapshot`.
    #[must_use]
    pub fn new(
        position: u64,
        last_entity: EntityId,
        fingerprint: u64,
        snapshot: AdmissionKey,
    ) -> (payload: CursorPayload)
        ensures
            payload@ == (CursorModel { position, last_entity, fingerprint, snapshot }),
    {
        CursorPayload { position, last_entity, fingerprint, snapshot }
    }

    /// The position in the total order after which the answer continues: the
    /// anchor record's admission time, in nanoseconds.
    #[must_use]
    pub fn position(&self) -> (position: u64)
        ensures
            position == self@.position,
    {
        self.position
    }

    /// The anchor record's entity.
    #[must_use]
    pub fn last_entity(&self) -> (entity: EntityId)
        ensures
            entity == self@.last_entity,
    {
        self.last_entity
    }

    /// The fingerprint of the query that the cursor belongs to.
    #[must_use]
    pub fn fingerprint(&self) -> (fingerprint: u64)
        ensures
            fingerprint == self@.fingerprint,
    {
        self.fingerprint
    }

    /// The last position inside the snapshot.
    #[must_use]
    pub fn snapshot(&self) -> (snapshot: AdmissionKey)
        ensures
            snapshot == self@.snapshot,
    {
        self.snapshot
    }

    /// The cursor's bytes.
    #[must_use]
    pub fn encode(&self) -> (bytes: Vec<u8>)
        ensures
            bytes@ == self@.encoding(),
    {
        let capacity: usize = HEADER_LEN + 1 + id_region_len(self.last_entity) + SNAPSHOT_TIME_LEN
            + 1 + id_region_len(self.snapshot.entity());
        let mut bytes: Vec<u8> = Vec::with_capacity(capacity);
        codec::push_u64(&mut bytes, self.position);
        codec::push_u64(&mut bytes, self.fingerprint);
        push_entity(&mut bytes, self.last_entity);
        codec::push_u64(&mut bytes, self.snapshot.admitted_at().as_unix_nano());
        push_entity(&mut bytes, self.snapshot.entity());
        assert(bytes@ =~= self@.encoding());
        bytes
    }

    /// The cursor that `bytes` encode. Anything that is not exactly a cursor's
    /// encoding is malformed: there is no partial read and no trailing byte.
    pub fn decode(bytes: &[u8]) -> (decoded: Result<CursorPayload, CursorError>)
        ensures
            match decoded {
                Ok(payload) => decoding(bytes@) == Some(payload@),
                Err(error) => error == CursorError::Malformed && decoding(bytes@) is None,
            },
    {
        match CursorPayload::parse(bytes) {
            Some(payload) => {
                proof {
                    decoding_undoes_encoding(payload@);
                }
                Ok(payload)
            },
            None => Err(CursorError::Malformed),
        }
    }

    fn parse(bytes: &[u8]) -> (parsed: Option<CursorPayload>)
        ensures
            match parsed {
                Some(payload) => payload@.valid() && payload@.encoding() == bytes@,
                None => forall|cursor: CursorModel| cursor.valid() ==> #[trigger] cursor.encoding()
                    != bytes@,
            },
    {
        assert(bytes@.len() == bytes.len());
        if bytes.len() <= HEADER_LEN {
            proof {
                assert forall|cursor: CursorModel| #[trigger] cursor.encoding() != bytes@ by {
                    encoding_length(cursor);
                }
            }
            return None;
        }
        let position: u64 = codec::read_u64(bytes, 0);
        let fingerprint: u64 = codec::read_u64(bytes, 8);
        let (last_entity, middle) = match parse_entity(bytes, HEADER_LEN) {
            Some(parsed) => parsed,
            None => {
                proof {
                    assert forall|cursor: CursorModel| cursor.valid() implies
                        #[trigger] cursor.encoding() != bytes@ by {
                        if cursor.encoding() == bytes@ {
                            header_of(cursor, bytes@);
                        }
                    }
                }
                return None;
            },
        };
        let ghost rest = bytes@.skip(middle as int);
        proof {
            assert(bytes@.skip(16) =~= entity_bytes(last_entity) + rest);
            assert forall|cursor: CursorModel| #[trigger] cursor.encoding() == bytes@ implies rest
                == snapshot_bytes(cursor.snapshot) by {
                header_of(cursor, bytes@);
                entity_bytes_are_prefix_free(
                    cursor.last_entity,
                    snapshot_bytes(cursor.snapshot),
                    last_entity,
                    rest,
                );
            }
        }
        if bytes.len() - middle < SNAPSHOT_TIME_LEN {
            proof {
                assert forall|cursor: CursorModel| #[trigger] cursor.encoding() != bytes@ by {
                    codec::le_is_the_number(cursor.snapshot.nanos(), 0);
                }
            }
            return None;
        }
        let nanos: u64 = codec::read_u64(bytes, middle);
        let ghost tail = bytes@.skip(middle + 8);
        proof {
            assert(rest =~= codec::le(nanos) + tail);
            assert forall|cursor: CursorModel| #[trigger] cursor.encoding() == bytes@ implies tail
                == entity_bytes(cursor.snapshot.entity_id()) by {
                codec::le_is_the_number(cursor.snapshot.nanos(), nanos);
                codec::le_is_the_number(nanos, nanos);
                codec::heads_and_tails(
                    codec::le(nanos),
                    tail,
                    codec::le(cursor.snapshot.nanos()),
                    entity_bytes(cursor.snapshot.entity_id()),
                );
            }
        }
        let (snapshot_entity, end) = match parse_entity(bytes, middle + 8) {
            Some(parsed) => parsed,
            None => {
                proof {
                    assert forall|cursor: CursorModel| cursor.valid() implies
                        #[trigger] cursor.encoding() != bytes@ by {
                        if cursor.encoding() == bytes@ {
                            assert(tail =~= entity_bytes(cursor.snapshot.entity_id())
                                + Seq::<u8>::empty());
                        }
                    }
                }
                return None;
            },
        };
        proof {
            assert(tail =~= entity_bytes(snapshot_entity) + bytes@.skip(end as int));
        }
        if end != bytes.len() {
            proof {
                assert forall|cursor: CursorModel| #[trigger] cursor.encoding() != bytes@ by {
                    if cursor.encoding() == bytes@ {
                        assert(tail =~= entity_bytes(cursor.snapshot.entity_id())
                            + Seq::<u8>::empty());
                        entity_bytes_are_prefix_free(
                            snapshot_entity,
                            bytes@.skip(end as int),
                            cursor.snapshot.entity_id(),
                            Seq::empty(),
                        );
                        assert(bytes@.skip(end as int).len() == 0);
                    }
                }
            }
            return None;
        }
        let payload = CursorPayload {
            position,
            last_entity,
            fingerprint,
            snapshot: AdmissionKey::new(AdmissionTime::from_unix_nano(nanos), snapshot_entity),
        };
        proof {
            assert(tail =~= entity_bytes(snapshot_entity));
            assert(rest =~= snapshot_bytes(payload.snapshot));
            assert(bytes@ =~= bytes@.subrange(0, 8) + (bytes@.subrange(8, 16) + bytes@.skip(16)));
        }
        Some(payload)
    }

    /// Checks that the cursor's snapshot is the one that `lease` pins.
    pub fn verify_lease(&self, lease: &SnapshotLease) -> (verdict: Result<(), CursorError>)
        ensures
            verdict == if lease@.governs(self@.snapshot) {
                Ok::<(), CursorError>(())
            } else {
                Err(CursorError::LeaseMismatch)
            },
    {
        if lease.governs(self.snapshot) {
            Ok(())
        } else {
            Err(CursorError::LeaseMismatch)
        }
    }

    /// Checks that the cursor belongs to the query with `expected_fingerprint`.
    pub fn verify(&self, expected_fingerprint: u64) -> (verdict: Result<(), CursorError>)
        ensures
            verdict == if self@.fingerprint == expected_fingerprint {
                Ok::<(), CursorError>(())
            } else {
                Err(CursorError::FingerprintMismatch)
            },
    {
        if self.fingerprint == expected_fingerprint {
            Ok(())
        } else {
            Err(CursorError::FingerprintMismatch)
        }
    }
}

proof fn header_of(cursor: CursorModel, bytes: Seq<u8>)
    requires
        cursor.encoding() == bytes,
    ensures
        bytes.skip(16) == entity_bytes(cursor.last_entity) + snapshot_bytes(cursor.snapshot),
{
    codec::le_is_the_number(cursor.position, 0);
    codec::le_is_the_number(cursor.fingerprint, 0);
    assert(bytes.skip(16) =~= entity_bytes(cursor.last_entity) + snapshot_bytes(cursor.snapshot));
}

/// The fingerprint of `input`: the 64-bit FNV-1a hash, folded byte by byte.
pub open spec fn fingerprint_of(input: Seq<u8>) -> u64
    decreases input.len(),
{
    if input.len() == 0 {
        FINGERPRINT_BASIS
    } else {
        fold_byte(fingerprint_of(input.drop_last()), input.last())
    }
}

/// One step of the hash: the byte is mixed in, then the product is taken
/// modulo 2^64.
pub open spec fn fold_byte(hash: u64, byte: u8) -> u64 {
    (((hash ^ (byte as u64)) * FINGERPRINT_PRIME) % 0x1_0000_0000_0000_0000) as u64
}

/// The fingerprint of `input`. It rejects cursors of other queries and
/// identifies nothing: two inputs may share one.
#[must_use]
pub fn fingerprint(input: &[u8]) -> (hash: u64)
    ensures
        hash == fingerprint_of(input@),
{
    let mut hash: u64 = FINGERPRINT_BASIS;
    let mut i: usize = 0;
    while i < input.len()
        invariant
            i <= input@.len(),
            hash == fingerprint_of(input@.take(i as int)),
        decreases input@.len() - i,
    {
        assert(input@.take(i + 1).drop_last() =~= input@.take(i as int));
        hash = (hash ^ (input[i] as u64)).wrapping_mul(FINGERPRINT_PRIME);
        i += 1;
    }
    assert(input@.take(i as int) =~= input@);
    hash
}

/// The encoding of a snapshot boundary, as cursors carry it.
#[must_use]
pub fn boundary_bytes(boundary: AdmissionKey) -> (bytes: Vec<u8>)
    ensures
        bytes@ == snapshot_bytes(boundary),
{
    let mut bytes: Vec<u8> = Vec::new();
    codec::push_u64(&mut bytes, boundary.admitted_at().as_unix_nano());
    push_entity(&mut bytes, boundary.entity());
    assert(bytes@ =~= snapshot_bytes(boundary));
    bytes
}

impl CursorError {
    /// What the error says.
    pub open spec fn text(self) -> Seq<char> {
        match self {
            CursorError::Malformed => "cursor is not a canonical cursor encoding"@,
            CursorError::FingerprintMismatch =>
                "cursor belongs to a different query (fingerprint mismatch)"@,
            CursorError::LeaseMismatch =>
                "cursor belongs to a different snapshot (lease mismatch)"@,
        }
    }

    /// What the error says.
    #[must_use]
    pub fn message(&self) -> (text: String)
        ensures
            text@ == self.text(),
    {
        match self {
            CursorError::Malformed => "cursor is not a canonical cursor encoding".to_owned(),
            CursorError::FingerprintMismatch =>
                "cursor belongs to a different query (fingerprint mismatch)".to_owned(),
            CursorError::LeaseMismatch =>
                "cursor belongs to a different snapshot (lease mismatch)".to_owned(),
        }
    }
}

/// A cursor's bytes are its fields in order, with nothing between them: the
/// position, the fingerprint, the last entity, the snapshot's time and entity. An
/// entity is a zero, the trace id and the span id, or a one and the serial.
pub proof fn a_cursor_is_its_fields_in_order(payload: CursorPayload, bytes: Vec<u8>)
    requires
        call_ensures(CursorPayload::encode, (&payload,), bytes),
    ensures
        ({
            let last = match payload@.last_entity {
                EntityId::Span { trace_id, span_id } => seq![0u8] + trace_id@ + span_id@,
                EntityId::Assigned(id) => seq![1u8] + codec::le(id@),
            };
            let end = match payload@.snapshot.entity_id() {
                EntityId::Span { trace_id, span_id } => seq![0u8] + trace_id@ + span_id@,
                EntityId::Assigned(id) => seq![1u8] + codec::le(id@),
            };
            bytes@ == codec::le(payload@.position) + codec::le(payload@.fingerprint) + last
                + codec::le(payload@.snapshot.nanos()) + end
        }),
{
    let last = entity_bytes(payload@.last_entity);
    let end = entity_bytes(payload@.snapshot.entity_id());
    assert(bytes@ =~= codec::le(payload@.position) + codec::le(payload@.fingerprint) + last
        + codec::le(payload@.snapshot.nanos()) + end);
}

/// A cursor says what it was made of.
pub proof fn a_cursor_says_what_it_was_made_of(
    position: u64,
    last_entity: EntityId,
    fingerprint: u64,
    snapshot: AdmissionKey,
    payload: CursorPayload,
    said: (u64, EntityId, u64, AdmissionKey),
)
    requires
        call_ensures(CursorPayload::new, (position, last_entity, fingerprint, snapshot), payload),
        call_ensures(CursorPayload::position, (&payload,), said.0),
        call_ensures(CursorPayload::last_entity, (&payload,), said.1),
        call_ensures(CursorPayload::fingerprint, (&payload,), said.2),
        call_ensures(CursorPayload::snapshot, (&payload,), said.3),
    ensures
        said == (position, last_entity, fingerprint, snapshot),
{
}

/// Reading a cursor's bytes gives the cursor back; bytes that are no cursor's are
/// malformed.
pub proof fn a_cursor_survives_its_bytes(
    payload: CursorPayload,
    bytes: Vec<u8>,
    other: &[u8],
    read: Result<CursorPayload, CursorError>,
)
    requires
        payload@.valid(),
        call_ensures(CursorPayload::encode, (&payload,), bytes),
        call_ensures(CursorPayload::decode, (other,), read),
    ensures
        other@ == bytes@ ==> (read matches Ok(back) && back@ == payload@),
        read matches Ok(back) ==> back@.valid() && back@.encoding() == other@,
        read matches Err(error) ==> error == CursorError::Malformed && other@ != bytes@,
{
    decoding_undoes_encoding(payload@);
    encoding_undoes_decoding(other@);
}

/// A cursor belongs to the query of its fingerprint, and to the lease that
/// governs its snapshot.
pub proof fn a_cursor_is_held_to_its_query_and_lease(
    payload: CursorPayload,
    expected: u64,
    verdict: Result<(), CursorError>,
    lease: SnapshotLease,
    governs: bool,
    leased: Result<(), CursorError>,
)
    requires
        call_ensures(CursorPayload::verify, (&payload, expected), verdict),
        call_ensures(SnapshotLease::governs, (&lease, payload@.snapshot), governs),
        call_ensures(CursorPayload::verify_lease, (&payload, &lease), leased),
    ensures
        verdict is Ok <==> payload@.fingerprint == expected,
        verdict matches Err(error) ==> error == CursorError::FingerprintMismatch,
        leased is Ok <==> governs,
        leased matches Err(error) ==> error == CursorError::LeaseMismatch,
{
}

/// The fingerprint is the 64-bit FNV-1a hash: it starts at its offset basis, and
/// each byte is mixed in and multiplied by its prime, modulo 2^64.
pub proof fn the_fingerprint_is_fnv(input: Seq<u8>, byte: u8)
    ensures
        fingerprint_of(Seq::empty()) == 0xcbf2_9ce4_8422_2325,
        fingerprint_of(input.push(byte)) == ((fingerprint_of(input) ^ (byte as u64))
            * 0x0000_0100_0000_01b3) % 0x1_0000_0000_0000_0000,
{
    assert(input.push(byte).drop_last() =~= input);
}

/// Each rejection of a cursor is told apart in words.
pub proof fn a_rejected_cursor_is_told_why(error: CursorError, message: String)
    requires
        call_ensures(CursorError::message, (&error,), message),
    ensures
        match error {
            CursorError::Malformed => message@ == "cursor is not a canonical cursor encoding"@,
            CursorError::FingerprintMismatch => message@
                == "cursor belongs to a different query (fingerprint mismatch)"@,
            CursorError::LeaseMismatch => message@
                == "cursor belongs to a different snapshot (lease mismatch)"@,
        },
{
}

}
