//! Reserving an identity: one zero-length marker, created exactly once.

use crate::barrier::ReservationAttemptStage;
use crate::cleanup_run::DirectorySync;
use crate::ids::AgentId;
use crate::listing::AGENT_RESERVATION_ENTRY_CAP;
use crate::open_error::DurableAgentCreateError;
use crate::physical::{
    CleanupNodeIdentityShape, Lookup, LookupError, NodeKind, NodeMetadata, ZeroFileObservation,
};
use std::collections::BTreeSet;
use vstd::prelude::*;

verus! {

/// How many collisions one request may meet.
pub const RESERVATION_COLLISION_ATTEMPT_CAP: usize = 32;

/// What one attempt left on disk.
#[derive(Clone, Copy, Debug, PartialEq, Eq, Structural)]
pub enum ReservationPhysicalObservation {
    Created,
    AlreadyExistsCanonical,
    CreateErrorAbsent,
    CreateErrorPresent,
    CreatedThenErrorPresent,
    Corrupt,
    Indeterminate,
}

/// What a reservation job hands back.
#[derive(Clone, Copy, Debug, PartialEq, Eq, Structural)]
pub enum ReservationAttemptJobOutcome {
    Cancelled,
    Observed(ReservationPhysicalObservation),
}

/// What a marker looks like when it is read back.
#[derive(Clone, Copy, Debug, PartialEq, Eq, Structural)]
pub enum ReservationReadback {
    Canonical,
    Absent,
    Corrupt,
    Indeterminate,
}

/// An empty private file.
pub open spec fn is_canonical_marker(metadata: NodeMetadata) -> bool {
    metadata.is_private_file() && metadata.length == 0
}

pub fn is_canonical_reservation_marker(metadata: &NodeMetadata) -> (canonical: bool)
    ensures
        canonical == is_canonical_marker(*metadata),
{
    if !matches!(metadata.kind, NodeKind::Regular) || metadata.length != 0 {
        return false;
    }
    crate::physical::validate_existing_regular_file_mode(
        metadata,
        crate::open_error::DurableOpenError::DurableStateCorrupt,
    ).is_ok()
}

pub fn same_reservation_file_identity(first: &NodeMetadata, second: &NodeMetadata) -> (same: bool)
    ensures
        same == (first.identity == second.identity),
{
    first.identity == second.identity
}

/// Whether a handle and a path both show the expected marker.
pub open spec fn shows_marker(
    before: CleanupNodeIdentityShape,
    handle: NodeMetadata,
    path: NodeMetadata,
    expected: Option<CleanupNodeIdentityShape>,
) -> bool {
    &&& is_canonical_marker(handle)
    &&& is_canonical_marker(path)
    &&& before == handle.identity
    &&& handle.identity == path.identity
    &&& expected matches Some(node) ==> node == handle.identity
}

/// What reading a marker back amounts to, the earliest observation first. A marker that vanishes
/// while it is open is corrupt.
pub open spec fn readback_outcome(
    observation: ZeroFileObservation,
    expected: Option<CleanupNodeIdentityShape>,
) -> ReservationReadback {
    match observation.file.initial_path {
        Err(LookupError::NotFound) => ReservationReadback::Absent,
        Err(LookupError::Unreadable) => ReservationReadback::Indeterminate,
        Ok(initial) => if !is_canonical_marker(initial) {
            ReservationReadback::Corrupt
        } else if !observation.file.opened {
            ReservationReadback::Indeterminate
        } else {
            match (observation.file.handle, observation.file.path) {
                (Err(_), _) => ReservationReadback::Indeterminate,
                (Ok(_), Err(LookupError::NotFound)) => ReservationReadback::Corrupt,
                (Ok(_), Err(LookupError::Unreadable)) => ReservationReadback::Indeterminate,
                (Ok(handle), Ok(path)) => if !shows_marker(
                    initial.identity,
                    handle,
                    path,
                    expected,
                ) {
                    ReservationReadback::Corrupt
                } else {
                    match observation.read {
                        None => ReservationReadback::Indeterminate,
                        Some(length) => if length != 0 {
                            ReservationReadback::Corrupt
                        } else {
                            match (observation.file.final_handle, observation.file.final_path) {
                                (Err(_), _) => ReservationReadback::Indeterminate,
                                (Ok(_), Err(LookupError::NotFound)) => ReservationReadback::Corrupt,
                                (Ok(_), Err(LookupError::Unreadable)) =>
                                    ReservationReadback::Indeterminate,
                                (Ok(final_handle), Ok(final_path)) => if shows_marker(
                                    handle.identity,
                                    final_handle,
                                    final_path,
                                    expected,
                                ) {
                                    ReservationReadback::Canonical
                                } else {
                                    ReservationReadback::Corrupt
                                },
                            }
                        },
                    }
                },
            }
        },
    }
}

fn check_marker(
    before: &NodeMetadata,
    handle: &NodeMetadata,
    path: &NodeMetadata,
    expected: Option<CleanupNodeIdentityShape>,
) -> (shown: bool)
    ensures
        shown == shows_marker(before.identity, *handle, *path, expected),
{
    let is_expected = match expected {
        Some(node) => node == handle.identity,
        None => true,
    };
    is_canonical_reservation_marker(handle) && is_canonical_reservation_marker(path)
        && same_reservation_file_identity(before, handle) && same_reservation_file_identity(
        handle,
        path,
    ) && is_expected
}

pub fn readback_reservation_marker(
    observation: &ZeroFileObservation,
    expected: Option<CleanupNodeIdentityShape>,
) -> (readback: ReservationReadback)
    ensures
        readback == readback_outcome(*observation, expected),
{
    let initial = match observation.file.initial_path {
        Ok(metadata) => metadata,
        Err(LookupError::NotFound) => return ReservationReadback::Absent,
        Err(LookupError::Unreadable) => return ReservationReadback::Indeterminate,
    };
    if !is_canonical_reservation_marker(&initial) {
        return ReservationReadback::Corrupt;
    }
    if !observation.file.opened {
        return ReservationReadback::Indeterminate;
    }
    let opened = match observation.file.handle {
        Ok(metadata) => metadata,
        Err(_) => return ReservationReadback::Indeterminate,
    };
    let opened_path = match observation.file.path {
        Ok(metadata) => metadata,
        Err(LookupError::NotFound) => return ReservationReadback::Corrupt,
        Err(LookupError::Unreadable) => return ReservationReadback::Indeterminate,
    };
    if !check_marker(&initial, &opened, &opened_path, expected) {
        return ReservationReadback::Corrupt;
    }
    match observation.read {
        Some(length) => if length != 0 {
            return ReservationReadback::Corrupt;
        },
        None => return ReservationReadback::Indeterminate,
    }
    let final_opened = match observation.file.final_handle {
        Ok(metadata) => metadata,
        Err(_) => return ReservationReadback::Indeterminate,
    };
    let final_path = match observation.file.final_path {
        Ok(metadata) => metadata,
        Err(LookupError::NotFound) => return ReservationReadback::Corrupt,
        Err(LookupError::Unreadable) => return ReservationReadback::Indeterminate,
    };
    if !check_marker(&opened, &final_opened, &final_path, expected) {
        return ReservationReadback::Corrupt;
    }
    ReservationReadback::Canonical
}

/// One reservation attempt. Each state but the last waits for the answer to one action.
#[derive(Clone, Copy, PartialEq, Eq, Structural)]
pub enum ReservationAttempt {
    /// The marker is to be created.
    Creating,
    /// The permissions of the new marker are to be set.
    Restricting,
    /// The new marker is to be looked at through its handle.
    Inspecting { degraded: bool },
    /// The new marker is to be made durable.
    SyncingFile { degraded: bool, node: CleanupNodeIdentityShape },
    /// Its directory is to be made durable.
    SyncingParent { degraded: bool, node: CleanupNodeIdentityShape },
    /// The new marker is to be read back.
    ReadingBack { degraded: bool, node: CleanupNodeIdentityShape },
    /// Whatever made the creation fail is to be read back.
    Reconciling { already_exists: bool },
    Finished(ReservationPhysicalObservation),
}

/// What an attempt asks for next.
#[derive(Clone, Copy, Debug, PartialEq, Eq, Structural)]
pub enum ReservationAction {
    CreateMarker,
    SetPrivatePermissions,
    InspectHandle,
    SyncFile,
    SyncParent,
    ReadBack,
    Finished(ReservationPhysicalObservation),
}

/// What came of the last action.
#[derive(Clone, Copy)]
pub enum ReservationEvent {
    Created,
    CreateFailed { already_exists: bool },
    Performed(bool),
    Handle(Lookup),
    ReadBack(ZeroFileObservation),
}

impl ReservationAttempt {
    pub open spec fn spec_action(self) -> ReservationAction {
        match self {
            ReservationAttempt::Creating => ReservationAction::CreateMarker,
            ReservationAttempt::Restricting => ReservationAction::SetPrivatePermissions,
            ReservationAttempt::Inspecting { .. } => ReservationAction::InspectHandle,
            ReservationAttempt::SyncingFile { .. } => ReservationAction::SyncFile,
            ReservationAttempt::SyncingParent { .. } => ReservationAction::SyncParent,
            ReservationAttempt::ReadingBack { .. } => ReservationAction::ReadBack,
            ReservationAttempt::Reconciling { .. } => ReservationAction::ReadBack,
            ReservationAttempt::Finished(observation) => ReservationAction::Finished(observation),
        }
    }

    /// The next state. An answer that does not belong to the question leaves the outcome unknown.
    pub open spec fn after(self, event: ReservationEvent, sync: DirectorySync) -> Self {
        let unknown = ReservationAttempt::Finished(ReservationPhysicalObservation::Indeterminate);
        match (self, event) {
            (ReservationAttempt::Finished(_), _) => self,
            (ReservationAttempt::Creating, ReservationEvent::Created) =>
                ReservationAttempt::Restricting,
            (
                ReservationAttempt::Creating,
                ReservationEvent::CreateFailed { already_exists },
            ) => ReservationAttempt::Reconciling { already_exists },
            (ReservationAttempt::Restricting, ReservationEvent::Performed(succeeded)) =>
                ReservationAttempt::Inspecting { degraded: !succeeded },
            (ReservationAttempt::Inspecting { degraded }, ReservationEvent::Handle(lookup)) =>
                match lookup {
                    Err(_) => unknown,
                    Ok(metadata) => if is_canonical_marker(metadata) {
                        ReservationAttempt::SyncingFile { degraded, node: metadata.identity }
                    } else {
                        ReservationAttempt::Finished(ReservationPhysicalObservation::Corrupt)
                    },
                },
            (
                ReservationAttempt::SyncingFile { degraded, node },
                ReservationEvent::Performed(succeeded),
            ) => if sync is Supported {
                ReservationAttempt::SyncingParent { degraded: degraded || !succeeded, node }
            } else {
                ReservationAttempt::ReadingBack { degraded: degraded || !succeeded, node }
            },
            (
                ReservationAttempt::SyncingParent { degraded, node },
                ReservationEvent::Performed(succeeded),
            ) => ReservationAttempt::ReadingBack { degraded: degraded || !succeeded, node },
            (
                ReservationAttempt::ReadingBack { degraded, node },
                ReservationEvent::ReadBack(observation),
            ) => ReservationAttempt::Finished(
                match readback_outcome(observation, Some(node)) {
                    ReservationReadback::Canonical => if degraded {
                        ReservationPhysicalObservation::CreatedThenErrorPresent
                    } else {
                        ReservationPhysicalObservation::Created
                    },
                    ReservationReadback::Absent => ReservationPhysicalObservation::Corrupt,
                    ReservationReadback::Corrupt => ReservationPhysicalObservation::Corrupt,
                    ReservationReadback::Indeterminate =>
                        ReservationPhysicalObservation::Indeterminate,
                },
            ),
            (
                ReservationAttempt::Reconciling { already_exists },
                ReservationEvent::ReadBack(observation),
            ) => ReservationAttempt::Finished(
                match readback_outcome(observation, None) {
                    ReservationReadback::Canonical => if already_exists {
                        ReservationPhysicalObservation::AlreadyExistsCanonical
                    } else {
                        ReservationPhysicalObservation::CreateErrorPresent
                    },
                    ReservationReadback::Absent => if already_exists {
                        ReservationPhysicalObservation::Corrupt
                    } else {
                        ReservationPhysicalObservation::CreateErrorAbsent
                    },
                    ReservationReadback::Corrupt => ReservationPhysicalObservation::Corrupt,
                    ReservationReadback::Indeterminate =>
                        ReservationPhysicalObservation::Indeterminate,
                },
            ),
            _ => unknown,
        }
    }

    /// Starts an attempt, unless its owner has already closed it: then the filesystem is not touched
    /// at all.
    pub fn begin(stage: &mut ReservationAttemptStage) -> (attempt: Option<Self>)
        ensures
            attempt == if *old(stage) is Pending {
                Some(ReservationAttempt::Creating)
            } else {
                None
            },
            *final(stage) == if *old(stage) is Pending {
                ReservationAttemptStage::Crossed
            } else {
                *old(stage)
            },
    {
        if ReservationAttemptStage::try_cross(stage) {
            Some(ReservationAttempt::Creating)
        } else {
            None
        }
    }

    /// What to do next.
    pub fn action(self) -> (action: ReservationAction)
        ensures
            action == self.spec_action(),
    {
        match self {
            ReservationAttempt::Creating => ReservationAction::CreateMarker,
            ReservationAttempt::Restricting => ReservationAction::SetPrivatePermissions,
            ReservationAttempt::Inspecting { .. } => ReservationAction::InspectHandle,
            ReservationAttempt::SyncingFile { .. } => ReservationAction::SyncFile,
            ReservationAttempt::SyncingParent { .. } => ReservationAction::SyncParent,
            ReservationAttempt::ReadingBack { .. } => ReservationAction::ReadBack,
            ReservationAttempt::Reconciling { .. } => ReservationAction::ReadBack,
            ReservationAttempt::Finished(observation) => ReservationAction::Finished(observation),
        }
    }

    /// Takes in what came of the last action.
    pub fn handle(self, event: ReservationEvent, sync: DirectorySync) -> (next: Self)
        ensures
            next == self.after(event, sync),
    {
        let unknown = ReservationAttempt::Finished(ReservationPhysicalObservation::Indeterminate);
        match (self, event) {
            (ReservationAttempt::Finished(observation), _) => ReservationAttempt::Finished(
                observation,
            ),
            (ReservationAttempt::Creating, ReservationEvent::Created) =>
                ReservationAttempt::Restricting,
            (
                ReservationAttempt::Creating,
                ReservationEvent::CreateFailed { already_exists },
            ) => ReservationAttempt::Reconciling { already_exists },
            (ReservationAttempt::Restricting, ReservationEvent::Performed(succeeded)) =>
                ReservationAttempt::Inspecting { degraded: !succeeded },
            (ReservationAttempt::Inspecting { degraded }, ReservationEvent::Handle(lookup)) =>
                match lookup {
                    Err(_) => unknown,
                    Ok(metadata) => if is_canonical_reservation_marker(&metadata) {
                        ReservationAttempt::SyncingFile { degraded, node: metadata.identity }
                    } else {
                        ReservationAttempt::Finished(ReservationPhysicalObservation::Corrupt)
                    },
                },
            (
                ReservationAttempt::SyncingFile { degraded, node },
                ReservationEvent::Performed(succeeded),
            ) => match sync {
                DirectorySync::Supported => ReservationAttempt::SyncingParent {
                    degraded: degraded || !succeeded,
                    node,
                },
                DirectorySync::Unsupported => ReservationAttempt::ReadingBack {
                    degraded: degraded || !succeeded,
                    node,
                },
            },
            (
                ReservationAttempt::SyncingParent { degraded, node },
                ReservationEvent::Performed(succeeded),
            ) => ReservationAttempt::ReadingBack { degraded: degraded || !succeeded, node },
            (
                ReservationAttempt::ReadingBack { degraded, node },
                ReservationEvent::ReadBack(observation),
            ) => ReservationAttempt::Finished(
                match readback_reservation_marker(&observation, Some(node)) {
                    ReservationReadback::Canonical => if degraded {
                        ReservationPhysicalObservation::CreatedThenErrorPresent
                    } else {
                        ReservationPhysicalObservation::Created
                    },
                    ReservationReadback::Absent | ReservationReadback::Corrupt =>
                        ReservationPhysicalObservation::Corrupt,
                    ReservationReadback::Indeterminate =>
                        ReservationPhysicalObservation::Indeterminate,
                },
            ),
            (
                ReservationAttempt::Reconciling { already_exists },
                ReservationEvent::ReadBack(observation),
            ) => ReservationAttempt::Finished(
                match readback_reservation_marker(&observation, None) {
                    ReservationReadback::Canonical => if already_exists {
                        ReservationPhysicalObservation::AlreadyExistsCanonical
                    } else {
                        ReservationPhysicalObservation::CreateErrorPresent
                    },
                    ReservationReadback::Absent => if already_exists {
                        ReservationPhysicalObservation::Corrupt
                    } else {
                        ReservationPhysicalObservation::CreateErrorAbsent
                    },
                    ReservationReadback::Corrupt => ReservationPhysicalObservation::Corrupt,
                    ReservationReadback::Indeterminate =>
                        ReservationPhysicalObservation::Indeterminate,
                },
            ),
            _ => unknown,
        }
    }
}

/// The state of an attempt after a sequence of events.
pub open spec fn attempt_after(events: Seq<ReservationEvent>, sync: DirectorySync) -> ReservationAttempt
    decreases events.len(),
{
    if events.len() == 0 {
        ReservationAttempt::Creating
    } else {
        attempt_after(events.drop_last(), sync).after(events.last(), sync)
    }
}

/// Whether an event shows a canonical marker on a node.
spec fn shows_marker_on(event: ReservationEvent, node: CleanupNodeIdentityShape) -> bool {
    match event {
        ReservationEvent::Handle(Ok(metadata)) => is_canonical_marker(metadata)
            && metadata.identity == node,
        _ => false,
    }
}

/// Where an attempt stands after so many events.
proof fn lemma_attempt_progress(events: Seq<ReservationEvent>, sync: DirectorySync)
    ensures
        match attempt_after(events, sync) {
            ReservationAttempt::Creating => events.len() == 0,
            ReservationAttempt::Restricting => events.len() == 1 && events[0] is Created,
            ReservationAttempt::Inspecting { degraded } => events.len() == 2 && events[0]
                is Created && degraded == (events[1] == ReservationEvent::Performed(false)),
            ReservationAttempt::SyncingFile { degraded, node } => events.len() == 3 && events[0]
                is Created && shows_marker_on(events[2], node) && (!degraded ==> events[1] == ReservationEvent::Performed(true)),
            ReservationAttempt::SyncingParent { degraded, node } => events.len() == 4 && events[0]
                is Created && shows_marker_on(events[2], node) && sync is Supported && (!degraded ==> events[1]
                == ReservationEvent::Performed(true) && events[3] == ReservationEvent::Performed(
                true,
            )),
            ReservationAttempt::ReadingBack { degraded, node } => events[0] is Created
                && shows_marker_on(events[2], node) && (events.len() == if sync is Supported {
                5
            } else {
                4int
            }) && (!degraded ==> events[1] == ReservationEvent::Performed(true) && events[3]
                == ReservationEvent::Performed(true) && (sync is Supported ==> events[4]
                == ReservationEvent::Performed(true))),
            ReservationAttempt::Reconciling { already_exists } => events.len() == 1 && events[0]
                == (ReservationEvent::CreateFailed { already_exists }),
            ReservationAttempt::Finished(_) => events.len() >= 1,
        },
    decreases events.len(),
{
    if events.len() > 0 {
        let front = events.drop_last();
        lemma_attempt_progress(front, sync);
        assert forall|i: int| 0 <= i < front.len() implies front[i] == events[i] by {}
    }
}

/// An attempt reports a reservation as created only after the marker was created by this very
/// attempt, got its permissions, was made durable with its directory where the platform can, and was
/// read back as an empty private file on the node that was created.
pub proof fn law_created_means_durable(events: Seq<ReservationEvent>, sync: DirectorySync)
    requires
        events.len() > 0,
        attempt_after(events, sync) == ReservationAttempt::Finished(
            ReservationPhysicalObservation::Created,
        ),
        attempt_after(events.drop_last(), sync) !is Finished,
    ensures
        events[0] is Created,
        events[1] == ReservationEvent::Performed(true),
        events[3] == ReservationEvent::Performed(true),
        sync is Supported ==> events.len() == 6 && events[4] == ReservationEvent::Performed(true),
        sync is Unsupported ==> events.len() == 5,
        match (events[2], events.last()) {
            (ReservationEvent::Handle(Ok(created)), ReservationEvent::ReadBack(observation)) =>
                is_canonical_marker(created) && readback_outcome(
                observation,
                Some(created.identity),
            ) is Canonical,
            _ => false,
        },
{
    let front = events.drop_last();
    lemma_attempt_progress(front, sync);
    assert forall|i: int| 0 <= i < front.len() implies front[i] == events[i] by {}
    match attempt_after(front, sync) {
        ReservationAttempt::ReadingBack { degraded, node } => {
            match events.last() {
                ReservationEvent::ReadBack(observation) => {
                    assert(readback_outcome(observation, Some(node)) is Canonical);
                },
                _ => {},
            }
        },
        _ => {},
    }
}

/// The reserved identities of one kind: those that recovery found and those made since.
pub struct ReservationInventory {
    pub recovered: BTreeSet<u128>,
    pub created: BTreeSet<u128>,
}

/// Both sets of an inventory.
pub struct ReservationInventoryView {
    pub recovered: Set<u128>,
    pub created: Set<u128>,
}

impl View for ReservationInventory {
    type V = ReservationInventoryView;

    open spec fn view(&self) -> ReservationInventoryView {
        ReservationInventoryView { recovered: self.recovered@, created: self.created@ }
    }
}

impl ReservationInventoryView {
    pub open spec fn contains(self, id: u128) -> bool {
        self.recovered.contains(id) || self.created.contains(id)
    }

    pub open spec fn with(self, id: u128) -> Self {
        ReservationInventoryView { created: self.created.insert(id), ..self }
    }
}

impl ReservationInventory {
    pub fn contains(&self, id: u128) -> (present: bool)
        ensures
            present == self@.contains(id),
    {
        self.recovered.contains(&id) || self.created.contains(&id)
    }

    /// Whether the inventory has reached a maximum.
    pub fn is_full(&self, maximum: usize) -> (full: bool)
        ensures
            full == (self@.recovered.len() + self@.created.len() >= maximum),
    {
        self.recovered.len() as u128 + self.created.len() as u128 >= maximum as u128
    }
}

/// Why a reservation request ends without an identity.
#[derive(Clone, Copy, Debug, PartialEq, Eq, Structural)]
pub enum ReservationFailure {
    Closing,
    CollisionAttemptsExhausted,
    StorageUnavailable,
    DurableStateCorrupt,
    IndeterminatePoisoned,
}

/// What one observation means for a request: the identity, another attempt, or a failure.
pub open spec fn reconciled(
    candidate: u128,
    was_present: bool,
    observation: ReservationPhysicalObservation,
    collisions: nat,
) -> Result<Option<u128>, ReservationFailure> {
    match (observation, was_present) {
        (ReservationPhysicalObservation::Created, false) => Ok(Some(candidate)),
        (ReservationPhysicalObservation::AlreadyExistsCanonical, true) => if collisions + 1
            == RESERVATION_COLLISION_ATTEMPT_CAP {
            Err(ReservationFailure::CollisionAttemptsExhausted)
        } else {
            Ok(None)
        },
        (ReservationPhysicalObservation::CreateErrorAbsent, false) => Err(
            ReservationFailure::StorageUnavailable,
        ),
        (ReservationPhysicalObservation::CreateErrorPresent, _) => Err(
            ReservationFailure::StorageUnavailable,
        ),
        (ReservationPhysicalObservation::CreatedThenErrorPresent, false) => Err(
            ReservationFailure::StorageUnavailable,
        ),
        (ReservationPhysicalObservation::Indeterminate, _) => Err(
            ReservationFailure::IndeterminatePoisoned,
        ),
        _ => Err(ReservationFailure::DurableStateCorrupt),
    }
}

/// Whether an observation shows a marker that the inventory does not have yet.
pub open spec fn adds_marker(was_present: bool, observation: ReservationPhysicalObservation) -> bool {
    !was_present && (observation is Created || observation is CreateErrorPresent || observation
        is CreatedThenErrorPresent)
}

/// Holds one observation against the inventory and counts a collision.
pub fn reconcile_reservation(
    inventory: &mut ReservationInventory,
    candidate: u128,
    was_present: bool,
    observation: ReservationPhysicalObservation,
    collisions: &mut usize,
) -> (result: Result<Option<u128>, ReservationFailure>)
    requires
        *old(collisions) < RESERVATION_COLLISION_ATTEMPT_CAP,
    ensures
        result == reconciled(candidate, was_present, observation, *old(collisions) as nat),
        final(inventory)@ == if adds_marker(was_present, observation) {
            old(inventory)@.with(candidate)
        } else {
            old(inventory)@
        },
        *final(collisions) == if was_present && observation is AlreadyExistsCanonical {
            *old(collisions) + 1
        } else {
            *old(collisions) as int
        },
{
    match observation {
        ReservationPhysicalObservation::Created => if was_present {
            Err(ReservationFailure::DurableStateCorrupt)
        } else {
            inventory.created.insert(candidate);
            Ok(Some(candidate))
        },
        ReservationPhysicalObservation::AlreadyExistsCanonical => if was_present {
            *collisions = *collisions + 1;
            if *collisions == RESERVATION_COLLISION_ATTEMPT_CAP {
                Err(ReservationFailure::CollisionAttemptsExhausted)
            } else {
                Ok(None)
            }
        } else {
            Err(ReservationFailure::DurableStateCorrupt)
        },
        ReservationPhysicalObservation::CreateErrorAbsent => if was_present {
            Err(ReservationFailure::DurableStateCorrupt)
        } else {
            Err(ReservationFailure::StorageUnavailable)
        },
        ReservationPhysicalObservation::CreateErrorPresent => {
            if !was_present {
                inventory.created.insert(candidate);
            }
            Err(ReservationFailure::StorageUnavailable)
        },
        ReservationPhysicalObservation::CreatedThenErrorPresent => if was_present {
            Err(ReservationFailure::DurableStateCorrupt)
        } else {
            inventory.created.insert(candidate);
            Err(ReservationFailure::StorageUnavailable)
        },
        ReservationPhysicalObservation::Indeterminate => Err(
            ReservationFailure::IndeterminatePoisoned,
        ),
        ReservationPhysicalObservation::Corrupt => Err(ReservationFailure::DurableStateCorrupt),
    }
}

/// How a create request reports a failure: every poison is an unavailable dispatch.
pub open spec fn create_failure(failure: ReservationFailure) -> DurableAgentCreateError {
    match failure {
        ReservationFailure::Closing => DurableAgentCreateError::Closing,
        ReservationFailure::CollisionAttemptsExhausted =>
            DurableAgentCreateError::CollisionAttemptsExhausted,
        ReservationFailure::StorageUnavailable => DurableAgentCreateError::StorageUnavailable,
        ReservationFailure::DurableStateCorrupt =>
            DurableAgentCreateError::InternalDispatchUnavailable,
        ReservationFailure::IndeterminatePoisoned =>
            DurableAgentCreateError::InternalDispatchUnavailable,
    }
}

pub fn map_reservation_failure(failure: ReservationFailure) -> (error: DurableAgentCreateError)
    ensures
        error == create_failure(failure),
{
    match failure {
        ReservationFailure::Closing => DurableAgentCreateError::Closing,
        ReservationFailure::CollisionAttemptsExhausted =>
            DurableAgentCreateError::CollisionAttemptsExhausted,
        ReservationFailure::StorageUnavailable => DurableAgentCreateError::StorageUnavailable,
        ReservationFailure::DurableStateCorrupt | ReservationFailure::IndeterminatePoisoned =>
            DurableAgentCreateError::InternalDispatchUnavailable,
    }
}

/// The search for a free Agent identity.
pub enum AgentReservation {
    /// Closing is to be checked, and then a candidate generated.
    Generating { collisions: usize },
    /// A candidate is to be attempted.
    Attempting { collisions: usize, candidate: AgentId },
    Finished(Result<AgentId, DurableAgentCreateError>),
}

/// What came of the last action of a search.
pub enum AgentReservationEvent {
    /// The owner is closing; nothing was generated.
    Closing,
    Candidate(AgentId),
    CandidateUnavailable,
    Attempted(Result<ReservationPhysicalObservation, DurableAgentCreateError>),
}

/// The state of a search and of the inventory.
pub struct AgentReservationStep {
    pub state: AgentReservation,
    pub inventory: ReservationInventoryView,
}

impl AgentReservation {
    pub open spec fn is_within_cap(self) -> bool {
        match self {
            AgentReservation::Generating { collisions } => collisions
                < RESERVATION_COLLISION_ATTEMPT_CAP,
            AgentReservation::Attempting { collisions, .. } => collisions
                < RESERVATION_COLLISION_ATTEMPT_CAP,
            AgentReservation::Finished(_) => true,
        }
    }

    /// The next state. An event that does not belong to the state is an unavailable dispatch.
    pub open spec fn after(
        self,
        inventory: ReservationInventoryView,
        event: AgentReservationEvent,
    ) -> AgentReservationStep {
        let dispatch = AgentReservation::Finished(
            Err(DurableAgentCreateError::InternalDispatchUnavailable),
        );
        match (self, event) {
            (AgentReservation::Finished(_), _) => AgentReservationStep { state: self, inventory },
            (AgentReservation::Generating { .. }, AgentReservationEvent::Closing) =>
                AgentReservationStep {
                state: AgentReservation::Finished(Err(DurableAgentCreateError::Closing)),
                inventory,
            },
            (AgentReservation::Generating { .. }, AgentReservationEvent::CandidateUnavailable) =>
                AgentReservationStep {
                state: AgentReservation::Finished(
                    Err(DurableAgentCreateError::IdentityUnavailable),
                ),
                inventory,
            },
            (
                AgentReservation::Generating { collisions },
                AgentReservationEvent::Candidate(candidate),
            ) => AgentReservationStep {
                state: AgentReservation::Attempting { collisions, candidate },
                inventory,
            },
            (AgentReservation::Attempting { .. }, AgentReservationEvent::Attempted(Err(error))) =>
                AgentReservationStep {
                state: AgentReservation::Finished(Err(error)),
                inventory,
            },
            (
                AgentReservation::Attempting { collisions, candidate },
                AgentReservationEvent::Attempted(Ok(observation)),
            ) => {
                let was_present = inventory.contains(candidate@);
                AgentReservationStep {
                    state: match reconciled(
                        candidate@,
                        was_present,
                        observation,
                        collisions as nat,
                    ) {
                        Ok(Some(_)) => AgentReservation::Finished(Ok(candidate)),
                        Ok(None) => AgentReservation::Generating {
                            collisions: (collisions + 1) as usize,
                        },
                        Err(failure) => AgentReservation::Finished(Err(create_failure(failure))),
                    },
                    inventory: if adds_marker(was_present, observation) {
                        inventory.with(candidate@)
                    } else {
                        inventory
                    },
                }
            },
            _ => AgentReservationStep { state: dispatch, inventory },
        }
    }

    /// The state of a search that was just started.
    pub open spec fn begun(inventory: ReservationInventoryView) -> Self {
        if inventory.recovered.len() + inventory.created.len() >= AGENT_RESERVATION_ENTRY_CAP {
            AgentReservation::Finished(Err(DurableAgentCreateError::DurableStateTooLarge))
        } else {
            AgentReservation::Generating { collisions: 0 }
        }
    }

    /// Starts a search, unless the inventory is full.
    pub fn begin(inventory: &ReservationInventory) -> (state: Self)
        ensures
            state == AgentReservation::begun(inventory@),
            state == if inventory@.recovered.len() + inventory@.created.len()
                >= AGENT_RESERVATION_ENTRY_CAP {
                AgentReservation::Finished(Err(DurableAgentCreateError::DurableStateTooLarge))
            } else {
                AgentReservation::Generating { collisions: 0 }
            },
            state.is_within_cap(),
    {
        if inventory.is_full(AGENT_RESERVATION_ENTRY_CAP) {
            AgentReservation::Finished(Err(DurableAgentCreateError::DurableStateTooLarge))
        } else {
            AgentReservation::Generating { collisions: 0 }
        }
    }

    /// Takes in what came of the last action.
    pub fn handle(self, inventory: &mut ReservationInventory, event: AgentReservationEvent) -> (next:
        Self)
        requires
            self.is_within_cap(),
        ensures
            (AgentReservationStep { state: next, inventory: final(inventory)@ }) == self.after(
                old(inventory)@,
                event,
            ),
            next.is_within_cap(),
    {
        match (self, event) {
            (AgentReservation::Finished(result), _) => AgentReservation::Finished(result),
            (AgentReservation::Generating { .. }, AgentReservationEvent::Closing) =>
                AgentReservation::Finished(Err(DurableAgentCreateError::Closing)),
            (AgentReservation::Generating { .. }, AgentReservationEvent::CandidateUnavailable) =>
                AgentReservation::Finished(Err(DurableAgentCreateError::IdentityUnavailable)),
            (
                AgentReservation::Generating { collisions },
                AgentReservationEvent::Candidate(candidate),
            ) => AgentReservation::Attempting { collisions, candidate },
            (AgentReservation::Attempting { .. }, AgentReservationEvent::Attempted(Err(error))) =>
                AgentReservation::Finished(Err(error)),
            (
                AgentReservation::Attempting { collisions, candidate },
                AgentReservationEvent::Attempted(Ok(observation)),
            ) => {
                let id: u128 = candidate.value();
                let was_present = inventory.contains(id);
                let mut collisions: usize = collisions;
                match reconcile_reservation(
                    inventory,
                    id,
                    was_present,
                    observation,
                    &mut collisions,
                ) {
                    Ok(Some(_)) => AgentReservation::Finished(Ok(candidate)),
                    Ok(None) => AgentReservation::Generating { collisions },
                    Err(failure) => AgentReservation::Finished(
                        Err(map_reservation_failure(failure)),
                    ),
                }
            },
            _ => AgentReservation::Finished(
                Err(DurableAgentCreateError::InternalDispatchUnavailable),
            ),
        }
    }
}

/// The search and the inventory after a sequence of events.
pub open spec fn search_after(
    inventory: ReservationInventoryView,
    events: Seq<AgentReservationEvent>,
) -> AgentReservationStep
    decreases events.len(),
{
    if events.len() == 0 {
        AgentReservationStep { state: AgentReservation::Generating { collisions: 0 }, inventory }
    } else {
        let before = search_after(inventory, events.drop_last());
        before.state.after(before.inventory, events.last())
    }
}

/// How many attempts a search can still make.
pub open spec fn attempts_left(state: AgentReservation) -> int {
    match state {
        AgentReservation::Generating { collisions } => 2 * (RESERVATION_COLLISION_ATTEMPT_CAP
            - collisions),
        AgentReservation::Attempting { collisions, .. } => 2 * (RESERVATION_COLLISION_ATTEMPT_CAP
            - collisions) - 1,
        AgentReservation::Finished(_) => 0,
    }
}

/// What a search has taken up at each of its states.
proof fn lemma_proposed(
    inventory: ReservationInventoryView,
    events: Seq<AgentReservationEvent>,
)
    ensures
        ({
            let end = search_after(inventory, events);
            let candidates = proposed(inventory, events);
            match end.state {
                AgentReservation::Generating { collisions } => {
                    &&& end.inventory == inventory
                    &&& collisions < RESERVATION_COLLISION_ATTEMPT_CAP
                    &&& candidates.len() == collisions
                    &&& are_reserved(candidates, 0, inventory)
                    &&& !leaves_marker(inventory, events)
                },
                AgentReservation::Attempting { collisions, candidate } => {
                    &&& end.inventory == inventory
                    &&& collisions < RESERVATION_COLLISION_ATTEMPT_CAP
                    &&& candidates.len() == collisions + 1
                    &&& candidates.last() == candidate@
                    &&& are_reserved(candidates, 1, inventory)
                    &&& observed_last(inventory, events) is None
                },
                AgentReservation::Finished(Ok(id)) => {
                    &&& 1 <= candidates.len() <= 32
                    &&& candidates.last() == id@
                    &&& are_reserved(candidates, 1, inventory)
                    &&& observed_last(inventory, events) == Some(
                        ReservationPhysicalObservation::Created,
                    )
                },
                AgentReservation::Finished(Err(error)) => {
                    &&& end.inventory == if leaves_marker(inventory, events) {
                        inventory.with(candidates.last())
                    } else {
                        inventory
                    }
                    &&& leaves_marker(inventory, events)
                        ==> error is StorageUnavailable
                },
            }
        }),
    decreases events.len(),
{
    if events.len() > 0 {
        let front = events.drop_last();
        lemma_proposed(inventory, front);
        let before = search_after(inventory, front);
        let candidates = proposed(inventory, events);
        match (before.state, events.last()) {
            (
                AgentReservation::Generating { .. },
                AgentReservationEvent::Candidate(candidate),
            ) => {
                let earlier = proposed(inventory, front);
                assert forall|i: int| 0 <= i < candidates.len() - 1 implies inventory.contains(
                    #[trigger] candidates[i],
                ) by {
                    assert(candidates[i] == earlier[i]);
                }
            },
            (
                AgentReservation::Attempting { candidate, .. },
                AgentReservationEvent::Attempted(Ok(_)),
            ) => {
                assert(candidates == proposed(inventory, front));
                assert(candidates[candidates.len() - 1] == candidate@);
            },
            _ => {},
        }
    }
}

/// The candidates that a search has taken up, in order.
pub open spec fn proposed(
    inventory: ReservationInventoryView,
    events: Seq<AgentReservationEvent>,
) -> Seq<u128>
    decreases events.len(),
{
    if events.len() == 0 {
        seq![]
    } else {
        let before = proposed(inventory, events.drop_last());
        match (search_after(inventory, events.drop_last()).state, events.last()) {
            (
                AgentReservation::Generating { .. },
                AgentReservationEvent::Candidate(candidate),
            ) => before.push(candidate@),
            _ => before,
        }
    }
}

/// What was seen of the last candidate, once it was attempted.
pub open spec fn observed_last(
    inventory: ReservationInventoryView,
    events: Seq<AgentReservationEvent>,
) -> Option<ReservationPhysicalObservation>
    decreases events.len(),
{
    if events.len() == 0 {
        None
    } else {
        match (search_after(inventory, events.drop_last()).state, events.last()) {
            (AgentReservation::Generating { .. }, AgentReservationEvent::Candidate(_)) => None,
            (
                AgentReservation::Attempting { .. },
                AgentReservationEvent::Attempted(Ok(observation)),
            ) => Some(observation),
            _ => observed_last(inventory, events.drop_last()),
        }
    }
}

/// Whether the last candidate was free and its marker is there, although its creation failed.
pub open spec fn leaves_marker(
    inventory: ReservationInventoryView,
    events: Seq<AgentReservationEvent>,
) -> bool {
    let candidates = proposed(inventory, events);
    &&& candidates.len() > 0
    &&& !inventory.contains(candidates.last())
    &&& observed_last(inventory, events) matches Some(observation) && (observation
        is CreateErrorPresent || observation is CreatedThenErrorPresent)
}

/// Whether all candidates but the last `unsettled` ones were reserved before the search began.
pub open spec fn are_reserved(
    candidates: Seq<u128>,
    unsettled: int,
    inventory: ReservationInventoryView,
) -> bool {
    forall|i: int| 0 <= i < candidates.len() - unsettled ==> inventory.contains(#[trigger] candidates[i])
}

/// A search comes to an end within sixty-four events. What it hands out was free when it was
/// attempted, was created, and is the one identity that the inventory gained. The candidates before it
/// were all reserved already, and there were at most thirty-one of them. A search that fails leaves the
/// inventory as it was, unless the last candidate was free and its marker is there although its
/// creation failed: then the inventory gained just that candidate, and the storage is unavailable.
pub proof fn law_search_hands_out_a_free_identity(
    inventory: ReservationInventoryView,
    events: Seq<AgentReservationEvent>,
)
    ensures
        ({
            let end = search_after(inventory, events);
            &&& end.state.is_within_cap()
            &&& end.inventory.recovered == inventory.recovered
            &&& inventory.created.subset_of(end.inventory.created)
            &&& end.state !is Finished ==> end.inventory == inventory && attempts_left(end.state) + events.len() == 64
            &&& events.len() >= 64 ==> end.state is Finished
            &&& end.state matches AgentReservation::Finished(Ok(id)) ==> !inventory.contains(id@)
                && end.inventory == inventory.with(id@)
            &&& end.state matches AgentReservation::Finished(Ok(id)) ==> {
                let candidates = proposed(inventory, events);
                &&& 1 <= candidates.len() <= 32
                &&& candidates.last() == id@
                &&& are_reserved(candidates, 1, inventory)
                &&& observed_last(inventory, events) == Some(
                    ReservationPhysicalObservation::Created,
                )
            }
            &&& end.state matches AgentReservation::Finished(Err(error)) ==> {
                &&& end.inventory == if leaves_marker(inventory, events) {
                    inventory.with(proposed(inventory, events).last())
                } else {
                    inventory
                }
                &&& leaves_marker(inventory, events) ==> error is StorageUnavailable
            }
        }),
    decreases events.len(),
{
    lemma_proposed(inventory, events);
    if events.len() > 0 {
        law_search_hands_out_a_free_identity(inventory, events.drop_last());
    }
}

} // verus!
