//! Snapshot leases.

use runtime_trail::cursor::{CursorError, CursorPayload};
use runtime_trail::lease::{InvestigationId, SnapshotFingerprint, SnapshotLease};
use runtime_trail::model::{AdmissionTime, AssignedId, EntityId, Serial, SpanId, TraceId};
use runtime_trail::storage::AdmissionKey;

fn inv(serial: u64) -> InvestigationId {
    InvestigationId::new(Serial::new(serial).expect("fixture investigations are nonzero"))
}

fn span_entity(trace: [u8; 16], span: [u8; 8]) -> EntityId {
    EntityId::Span {
        trace_id: TraceId::from_bytes(trace),
        span_id: SpanId::from_bytes(span),
    }
}

fn assigned(serial: u64) -> EntityId {
    EntityId::Assigned(AssignedId::from_serial(
        Serial::new(serial).expect("test serials are nonzero"),
    ))
}

fn span_span_payload() -> CursorPayload {
    CursorPayload::new(
        1,
        span_entity([1; 16], [1; 8]),
        42,
        AdmissionKey::new(
            AdmissionTime::from_unix_nano(300),
            span_entity([2; 16], [2; 8]),
        ),
    )
}

#[test]
fn snapshot_fingerprints_distinguish_boundaries_and_agree_with_the_cursor() {
    let boundary_a = AdmissionKey::new(
        AdmissionTime::from_unix_nano(300),
        span_entity([2; 16], [2; 8]),
    );
    let boundary_b = AdmissionKey::new(
        AdmissionTime::from_unix_nano(301),
        span_entity([2; 16], [2; 8]),
    );
    let boundary_c = AdmissionKey::new(
        AdmissionTime::from_unix_nano(300),
        span_entity([2; 16], [3; 8]),
    );
    let boundary_d = AdmissionKey::new(AdmissionTime::from_unix_nano(300), assigned(9));

    let fa = SnapshotFingerprint::of(boundary_a);
    assert_ne!(
        fa,
        SnapshotFingerprint::of(boundary_b),
        "a later snapshot has its own fingerprint"
    );
    assert_ne!(
        fa,
        SnapshotFingerprint::of(boundary_c),
        "a different entity has its own fingerprint"
    );
    assert_ne!(
        fa,
        SnapshotFingerprint::of(boundary_d),
        "a different entity kind has its own fingerprint"
    );
    assert_eq!(
        fa,
        SnapshotFingerprint::of(boundary_a),
        "the fingerprint is deterministic"
    );

    // A cursor that embeds the boundary as its snapshot speaks the
    // same bytes a lease minted from the boundary does.
    let payload = span_span_payload();
    assert_eq!(payload.snapshot(), boundary_a, "fixture boundary");
    assert_eq!(SnapshotFingerprint::of(payload.snapshot()), fa);
    let lease = SnapshotLease::for_boundary(inv(1), payload.snapshot());
    assert_eq!(lease.snapshot(), fa);
    assert_eq!(payload.verify_lease(&lease), Ok(()));
}

#[test]
fn a_lease_is_one_investigations_pin_not_a_negotiable_token() {
    // The consume-once authority, pinned the same way the budget pins
    // itself: a lease that could be cloned or copied would be a second
    // claim on the same snapshot.

    let boundary = AdmissionKey::new(
        AdmissionTime::from_unix_nano(300),
        span_entity([2; 16], [2; 8]),
    );
    let lease = SnapshotLease::for_boundary(inv(9), boundary);

    assert_eq!(lease.investigation(), inv(9));
    assert!(lease.governs(boundary), "a lease governs its own boundary");
    assert!(
        !lease.governs(AdmissionKey::new(
            AdmissionTime::from_unix_nano(301),
            span_entity([2; 16], [2; 8])
        )),
        "a lease does not govern a later snapshot"
    );
    assert!(
        !lease.governs(AdmissionKey::new(
            AdmissionTime::from_unix_nano(300),
            span_entity([2; 16], [3; 8])
        )),
        "a lease does not govern another entity's snapshot"
    );

    // The cursor side agrees: verify_lease accepts the lease minted
    // from the payload's own boundary and refuses a lease minted
    // elsewhere — even under the same investigation.
    let payload = span_span_payload();
    let foreign = SnapshotLease::for_boundary(
        inv(9),
        AdmissionKey::new(
            AdmissionTime::from_unix_nano(900),
            span_entity([9; 16], [9; 8]),
        ),
    );
    assert_eq!(payload.verify_lease(&lease), Ok(()));
    assert_eq!(
        payload.verify_lease(&foreign),
        Err(CursorError::LeaseMismatch),
        "a lease over another boundary cannot page this cursor"
    );
}
