//! Snapshot leases: an investigation's pin on the snapshot it pages through.
//!
//! A lease binds an investigation to the fingerprint of the boundary that its
//! first page fixed. It is presented with every later page, and a page whose
//! cursor continues inside another snapshot is rejected. A lease cannot be
//! copied: one investigation holds one pin on one snapshot.

use crate::cursor;
use crate::model::Serial;
use crate::storage::AdmissionKey;
use vstd::prelude::*;

verus! {

/// An investigation's identity: a serial, never zero.
#[derive(Clone, Copy, Debug, PartialEq, Eq, PartialOrd, Ord, Hash)]
pub struct InvestigationId {
    serial: Serial,
}

impl InvestigationId {
    /// The serial's number.
    pub closed spec fn view(&self) -> u64 {
        self.serial@
    }

    /// The investigation that `serial` names.
    #[must_use]
    pub fn new(serial: Serial) -> (id: InvestigationId)
        ensures
            id@ == serial@,
    {
        InvestigationId { serial }
    }

    /// The serial behind the identity.
    #[must_use]
    pub fn get(self) -> (serial: Serial)
        ensures
            serial@ == self@,
    {
        self.serial
    }
}

/// The fingerprint of one snapshot boundary.
#[derive(Clone, Copy, Debug, PartialEq, Eq, PartialOrd, Ord, Hash)]
pub struct SnapshotFingerprint {
    value: u64,
}

impl SnapshotFingerprint {
    /// The fingerprint's value.
    pub closed spec fn view(&self) -> u64 {
        self.value
    }

    /// The fingerprint with this value.
    #[must_use]
    pub fn new(value: u64) -> (fingerprint: SnapshotFingerprint)
        ensures
            fingerprint@ == value,
    {
        SnapshotFingerprint { value }
    }

    /// The fingerprint of `boundary`, over the bytes in which a cursor carries
    /// it.
    #[must_use]
    pub fn of(boundary: AdmissionKey) -> (fingerprint: SnapshotFingerprint)
        ensures
            fingerprint@ == boundary_fingerprint(boundary),
    {
        SnapshotFingerprint {
            value: cursor::fingerprint(cursor::boundary_bytes(boundary).as_slice()),
        }
    }

    /// The fingerprint's value.
    #[must_use]
    pub fn get(self) -> (value: u64)
        ensures
            value == self@,
    {
        self.value
    }
}

/// The fingerprint of `boundary`.
pub open spec fn boundary_fingerprint(boundary: AdmissionKey) -> u64 {
    cursor::fingerprint_of(cursor::snapshot_bytes(boundary))
}

/// One investigation's pin on one snapshot.
#[derive(Debug, PartialEq, Eq)]
pub struct SnapshotLease {
    investigation: InvestigationId,
    snapshot: SnapshotFingerprint,
}

/// The mathematical reading of [`SnapshotLease`].
pub ghost struct LeaseModel {
    /// The investigation's serial.
    pub investigation: u64,
    /// The fingerprint of the pinned boundary.
    pub snapshot: u64,
}

impl LeaseModel {
    /// Whether the lease governs continuations within `boundary`: its
    /// fingerprint is the boundary's.
    pub open spec fn governs(self, boundary: AdmissionKey) -> bool {
        self.snapshot == boundary_fingerprint(boundary)
    }
}

impl View for SnapshotLease {
    type V = LeaseModel;

    closed spec fn view(&self) -> LeaseModel {
        LeaseModel { investigation: self.investigation@, snapshot: self.snapshot@ }
    }
}

impl SnapshotLease {
    /// Binds `investigation` to the boundary with this fingerprint.
    #[must_use]
    pub fn new(investigation: InvestigationId, snapshot: SnapshotFingerprint) -> (lease:
        SnapshotLease)
        ensures
            lease@ == (LeaseModel { investigation: investigation@, snapshot: snapshot@ }),
    {
        SnapshotLease { investigation, snapshot }
    }

    /// Binds `investigation` to `boundary`.
    #[must_use]
    pub fn for_boundary(investigation: InvestigationId, boundary: AdmissionKey) -> (lease:
        SnapshotLease)
        ensures
            lease@ == (LeaseModel {
                investigation: investigation@,
                snapshot: boundary_fingerprint(boundary),
            }),
    {
        SnapshotLease::new(investigation, SnapshotFingerprint::of(boundary))
    }

    /// The investigation that the lease belongs to.
    #[must_use]
    pub fn investigation(&self) -> (investigation: InvestigationId)
        ensures
            investigation@ == self@.investigation,
    {
        self.investigation
    }

    /// The fingerprint of the pinned boundary.
    #[must_use]
    pub fn snapshot(&self) -> (snapshot: SnapshotFingerprint)
        ensures
            snapshot@ == self@.snapshot,
    {
        self.snapshot
    }

    /// Whether the lease governs continuations within `boundary`.
    #[must_use]
    pub fn governs(&self, boundary: AdmissionKey) -> (governs: bool)
        ensures
            governs == self@.governs(boundary),
    {
        self.snapshot.value == SnapshotFingerprint::of(boundary).value
    }
}

/// A lease governs the boundary it was minted for, whoever's it is, and any
/// other boundary exactly when the two share a fingerprint.
pub proof fn a_lease_governs_its_own_boundary(
    lease: LeaseModel,
    minted_for: AdmissionKey,
    boundary: AdmissionKey,
)
    requires
        lease.snapshot == boundary_fingerprint(minted_for),
    ensures
        lease.governs(minted_for),
        lease.governs(boundary) <==> boundary_fingerprint(boundary) == boundary_fingerprint(
            minted_for,
        ),
{
}

/// A lease says whose it is, and governs the boundaries whose bytes, as cursors
/// carry them, have the fingerprint of its own.
pub proof fn a_lease_is_held_to_its_boundary(
    investigation: InvestigationId,
    boundary: AdmissionKey,
    lease: SnapshotLease,
    holder: InvestigationId,
    other: AdmissionKey,
    governs: bool,
)
    requires
        call_ensures(SnapshotLease::for_boundary, (investigation, boundary), lease),
        call_ensures(SnapshotLease::investigation, (&lease,), holder),
        call_ensures(SnapshotLease::governs, (&lease, other), governs),
    ensures
        holder@ == investigation@,
        governs <==> cursor::fingerprint_of(cursor::snapshot_bytes(other))
            == cursor::fingerprint_of(cursor::snapshot_bytes(boundary)),
        other == boundary ==> governs,
{
}

/// A fingerprint and an investigation say what they were made of, and so does a
/// lease.
pub proof fn a_lease_says_what_it_was_made_of(
    serial: Serial,
    id: InvestigationId,
    back: Serial,
    value: u64,
    fingerprint: SnapshotFingerprint,
    said: u64,
    lease: SnapshotLease,
    pinned: SnapshotFingerprint,
)
    requires
        call_ensures(InvestigationId::new, (serial,), id),
        call_ensures(InvestigationId::get, (id,), back),
        call_ensures(SnapshotFingerprint::new, (value,), fingerprint),
        call_ensures(SnapshotLease::new, (id, fingerprint), lease),
        call_ensures(SnapshotLease::snapshot, (&lease,), pinned),
        call_ensures(SnapshotFingerprint::get, (pinned,), said),
    ensures
        back@ == serial@,
        said == value,
{
}

}
