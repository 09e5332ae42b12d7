//! Cursor encoding, decoding and verification.

use runtime_trail::cursor::{
    fingerprint, id_region_len, CursorError, CursorPayload, HEADER_LEN, SERIAL_LEN,
    SNAPSHOT_TIME_LEN,
};
use runtime_trail::model::{AdmissionTime, AssignedId, EntityId, Serial, SpanId, TraceId};
use runtime_trail::order::sort_deterministically;
use runtime_trail::result::{
    Coverage, Dimension, Execution, Page, PartOutcome, Truncation, TruncationPoint,
};
use runtime_trail::storage::AdmissionKey;

fn assigned(serial: u64) -> EntityId {
    EntityId::Assigned(AssignedId::from_serial(
        Serial::new(serial).expect("test serials are nonzero"),
    ))
}

fn span_entity(trace: [u8; 16], span: [u8; 8]) -> EntityId {
    EntityId::Span {
        trace_id: TraceId::from_bytes(trace),
        span_id: SpanId::from_bytes(span),
    }
}

fn span_payload() -> CursorPayload {
    CursorPayload::new(
        12,
        span_entity([7; 16], [3; 8]),
        0xABCD_EF01_2345_6789,
        AdmissionKey::new(AdmissionTime::from_unix_nano(100), assigned(9)),
    )
}

fn assigned_payload() -> CursorPayload {
    CursorPayload::new(
        4,
        assigned(6),
        0x0123_4567_89AB_CDEF,
        AdmissionKey::new(
            AdmissionTime::from_unix_nano(200),
            span_entity([9; 16], [4; 8]),
        ),
    )
}

fn span_span_payload() -> CursorPayload {
    CursorPayload::new(
        1,
        span_entity([1; 16], [1; 8]),
        42,
        AdmissionKey::new(
            AdmissionTime::from_unix_nano(300),
            span_entity([2; 16], [2; 8]),
        ),
    )
}

fn assigned_assigned_payload() -> CursorPayload {
    CursorPayload::new(
        7,
        assigned(11),
        43,
        AdmissionKey::new(AdmissionTime::from_unix_nano(400), assigned(12)),
    )
}

#[test]
fn roundtrip_preserves_every_field_for_both_entity_variants() {
    for (payload, total_len) in [
        (span_payload(), 58),
        (assigned_payload(), 58),
        (span_span_payload(), 74),
        (assigned_assigned_payload(), 42),
    ] {
        let encoded = payload.encode();
        assert_eq!(
            CursorPayload::decode(&encoded).expect("own encoding decodes"),
            payload,
            "encode then decode must be the identity"
        );
        assert_eq!(
            CursorPayload::decode(&encoded)
                .expect("own encoding decodes")
                .snapshot(),
            payload.snapshot(),
            "the snapshot frontier must survive the roundtrip"
        );
        let expected = HEADER_LEN
            + 1
            + id_region_len(payload.last_entity())
            + SNAPSHOT_TIME_LEN
            + 1
            + id_region_len(payload.snapshot().entity());
        assert_eq!(
            encoded.len(),
            expected,
            "encoded length must be exactly the parts' sum"
        );
        assert_eq!(
            encoded.len(),
            total_len,
            "the layout's canonical total length"
        );
    }
}

#[test]
fn truncation_extension_and_noncanonical_inputs_are_all_rejected() {
    for payload in [
        span_payload(),
        assigned_payload(),
        span_span_payload(),
        assigned_assigned_payload(),
    ] {
        let encoded = payload.encode();
        for cut in 1..encoded.len() {
            let truncated = &encoded[..cut];
            assert_eq!(
                CursorPayload::decode(truncated),
                Err(CursorError::Malformed),
                "a {}-byte prefix of a {}-byte cursor is malformed",
                truncated.len(),
                encoded.len()
            );
        }
        let mut too_long = encoded.clone();
        too_long.push(0);
        assert_eq!(
            CursorPayload::decode(&too_long),
            Err(CursorError::Malformed),
            "an over-long input is rejected, not read as a prefix plus rest"
        );
        // Unknown tags are malformed in both entity slots — the last
        // entity's and the snapshot's — including tags whose region
        // would fit, so a length match alone would not pass.
        let snapshot_tag_at =
            HEADER_LEN + 1 + id_region_len(payload.last_entity()) + SNAPSHOT_TIME_LEN;
        for tag_at in [HEADER_LEN, snapshot_tag_at] {
            for bad in [2_u8, u8::MAX] {
                let mut wrong_tag = encoded.clone();
                wrong_tag[tag_at] = bad;
                assert_eq!(
                    CursorPayload::decode(&wrong_tag),
                    Err(CursorError::Malformed),
                    "tag byte {tag_at} set to {bad} is malformed",
                );
            }
        }
        // Serial zero is not an assigned id: the model starts serials
        // at 1. Each assigned slot is poisoned in turn.
        if matches!(payload.last_entity(), EntityId::Assigned(_)) {
            let mut zero_serial = encoded.clone();
            zero_serial[HEADER_LEN + 1..HEADER_LEN + 1 + SERIAL_LEN]
                .copy_from_slice(&0_u64.to_le_bytes());
            assert_eq!(
                CursorPayload::decode(&zero_serial),
                Err(CursorError::Malformed)
            );
        }
        if matches!(payload.snapshot().entity(), EntityId::Assigned(_)) {
            let mut zero_serial = encoded.clone();
            let serial_at = snapshot_tag_at + 1;
            zero_serial[serial_at..serial_at + SERIAL_LEN]
                .copy_from_slice(&0_u64.to_le_bytes());
            assert_eq!(
                CursorPayload::decode(&zero_serial),
                Err(CursorError::Malformed)
            );
        }
    }
}

#[test]
fn verify_rejects_a_foreign_fingerprint_and_accepts_its_own() {
    let payload = assigned_payload();
    assert_eq!(payload.verify(payload.fingerprint()), Ok(()));
    assert_eq!(
        payload.verify(payload.fingerprint() ^ 1),
        Err(CursorError::FingerprintMismatch)
    );
    // The end-to-end shape a caller exercises: decode the opaque bytes,
    // then present them to their query's fingerprint.
    let decoded =
        CursorPayload::decode(&span_payload().encode()).expect("own encoding decodes");
    assert_eq!(decoded.verify(span_payload().fingerprint()), Ok(()));
    assert_eq!(
        decoded.verify(0),
        Err(CursorError::FingerprintMismatch),
        "a foreign query's fingerprint is rejected after a decode too"
    );
}

#[test]
fn fingerprint_is_fnv1a64_over_every_input_byte() {
    assert_eq!(fingerprint(b""), 0xcbf2_9ce4_8422_2325, "the offset basis");
    assert_eq!(fingerprint(b"foobar"), 0x8594_4171_f739_67e8);
    assert_ne!(fingerprint(b"a"), fingerprint(b"b"));
    assert_ne!(
        fingerprint(b"records:live:span"),
        fingerprint(b"records:live:spans"),
        "a one-byte difference in the query description must not collide"
    );
}

#[test]
fn identical_inputs_assemble_byte_identical_pages() {
    fn build_page() -> Page<EntityId> {
        let mut records: Vec<(u64, EntityId)> = vec![
            (2, assigned(5)),
            (1, span_entity([9; 16], [1; 8])),
            (1, assigned(3)),
            (2, span_entity([1; 16], [2; 8])),
        ];
        sort_deterministically(&mut records, |record| record.0, |record| record.1);
        let items: Vec<EntityId> = records.into_iter().map(|(_, entity)| entity).collect();
        let cursor = CursorPayload::new(
            4,
            assigned(3),
            fingerprint(b"flow:errors:last-hour"),
            AdmissionKey::new(AdmissionTime::from_unix_nano(300), assigned(3)),
        );
        let bytes = cursor.encode();
        Page {
            items,
            next_cursor: Some(bytes.clone()),
            execution: Execution {
                parts: vec![PartOutcome::Degraded {
                    truncation: Truncation {
                        dimension: Dimension::Scan,
                        position: TruncationPoint::Cursor(bytes),
                        omitted: 0,
                    },
                }],
                coverage: Coverage {
                    entries: Vec::new(),
                },
            },
        }
    }

    let first = build_page();
    let second = build_page();
    assert_eq!(first, second, "identical inputs assemble one page");
    let Some(cursor_bytes) = first.next_cursor.as_deref() else {
        panic!("a truncated page carries its continuation");
    };
    assert_eq!(
        first.items,
        vec![
            span_entity([9; 16], [1; 8]),
            assigned(3),
            span_entity([1; 16], [2; 8]),
            assigned(5),
        ],
        "items sit in the engine's total order: key first, entity id as tie-break"
    );
    let PartOutcome::Degraded { truncation } = &first.execution.parts[0] else {
        panic!("the page's part degraded under the scan budget");
    };
    assert_eq!(
        truncation.position,
        TruncationPoint::Cursor(cursor_bytes.to_vec()),
        "the truncation point carries exactly the minted cursor bytes"
    );
}
