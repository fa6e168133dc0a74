//! How an identity is reserved, said over what is seen of its marker.

use crate::barrier;
use crate::barrier::ReservationAttemptStage;
use crate::cleanup_run::DirectorySync;
use crate::ids::AgentId;
use crate::open_error::{DurableAgentCreateError, RuntimeTaskError};
use crate::physical::{
    CleanupNodeIdentityShape, LookupError, NodeKind, NodeMetadata, ZeroFileObservation,
};
use crate::physical_laws;
use crate::reservation;
use crate::reservation::{
    AgentReservation, AgentReservationEvent, AgentReservationStep, ReservationAction,
    ReservationAttempt, ReservationAttemptJobOutcome, ReservationEvent, ReservationFailure,
    ReservationInventoryView, ReservationPhysicalObservation, ReservationReadback,
};
use vstd::prelude::*;

verus! {

/// A marker reads back as canonical exactly if all five looks show the same empty private file, on the
/// expected node where one is expected, and a read of it returns nothing. It is absent exactly if it is
/// not found at first sight; there anything but an empty private file is corrupt.
pub proof fn law_markers_are_read_back(
    observation: ZeroFileObservation,
    expected: Option<CleanupNodeIdentityShape>,
)
    ensures
        reservation::readback_outcome(observation, expected) == ReservationReadback::Canonical <==> {
            &&& observation.file.initial_path is Ok
            &&& physical_laws::is_stable(
                observation.file,
                observation.file.initial_path->Ok_0.identity,
                0,
            )
            &&& observation.read == Some(0usize)
            &&& expected is None || expected->0 == observation.file.initial_path->Ok_0.identity
        },
        reservation::readback_outcome(observation, expected) == ReservationReadback::Absent
            <==> observation.file.initial_path == Err::<NodeMetadata, LookupError>(
            LookupError::NotFound,
        ),
        observation.file.initial_path == Err::<NodeMetadata, LookupError>(LookupError::Unreadable)
            ==> reservation::readback_outcome(observation, expected)
            == ReservationReadback::Indeterminate,
        observation.file.initial_path matches Ok(initial) && (initial.kind != NodeKind::Regular
            || initial.mode % 4096 != 384 || initial.length != 0) ==> reservation::readback_outcome(
            observation,
            expected,
        ) == ReservationReadback::Corrupt,
{
}

/// An attempt that creates its marker goes on in this order, whatever fails on the way: permissions, a
/// look at what was created, the file, where it is supported its directory, and the readback. What is
/// created and read back on its own node is a reservation; it is clean exactly if every step succeeded.
pub proof fn law_an_attempt_that_creates(
    restricted: bool,
    handle: NodeMetadata,
    synced: bool,
    parent_synced: bool,
    readback: ZeroFileObservation,
    sync: DirectorySync,
)
    requires
        handle.kind == NodeKind::Regular,
        handle.mode % 4096 == 384,
        handle.length == 0,
    ensures
        ({
            let created = ReservationAttempt::Creating.after(ReservationEvent::Created, sync);
            let limited = created.after(ReservationEvent::Performed(restricted), sync);
            let inspected = limited.after(ReservationEvent::Handle(Ok(handle)), sync);
            let durable = inspected.after(ReservationEvent::Performed(synced), sync);
            let settled = if sync == DirectorySync::Supported {
                durable.after(ReservationEvent::Performed(parent_synced), sync)
            } else {
                durable
            };
            let clean = restricted && synced && (parent_synced || sync != DirectorySync::Supported);
            &&& ReservationAttempt::Creating.spec_action() == ReservationAction::CreateMarker
            &&& created.spec_action() == ReservationAction::SetPrivatePermissions
            &&& limited.spec_action() == ReservationAction::InspectHandle
            &&& inspected.spec_action() == ReservationAction::SyncFile
            &&& sync == DirectorySync::Supported ==> durable.spec_action()
                == ReservationAction::SyncParent
            &&& settled.spec_action() == ReservationAction::ReadBack
            &&& settled.after(ReservationEvent::ReadBack(readback), sync)
                == ReservationAttempt::Finished(
                match reservation::readback_outcome(readback, Some(handle.identity)) {
                    ReservationReadback::Canonical => if clean {
                        ReservationPhysicalObservation::Created
                    } else {
                        ReservationPhysicalObservation::CreatedThenErrorPresent
                    },
                    ReservationReadback::Indeterminate =>
                        ReservationPhysicalObservation::Indeterminate,
                    _ => ReservationPhysicalObservation::Corrupt,
                },
            )
        }),
{
}

/// A marker that was created but cannot be looked at leaves it open whether it is there; one that is not
/// an empty private file is corrupt.
pub proof fn law_an_attempt_that_cannot_look(
    restricted: bool,
    handle: Result<NodeMetadata, LookupError>,
    sync: DirectorySync,
)
    requires
        handle matches Ok(metadata) ==> metadata.kind != NodeKind::Regular || metadata.mode % 4096
            != 384 || metadata.length != 0,
    ensures
        ReservationAttempt::Creating.after(ReservationEvent::Created, sync).after(
            ReservationEvent::Performed(restricted),
            sync,
        ).after(ReservationEvent::Handle(handle), sync) == ReservationAttempt::Finished(
            if handle is Ok {
                ReservationPhysicalObservation::Corrupt
            } else {
                ReservationPhysicalObservation::Indeterminate
            },
        ),
{
}

/// An attempt whose creation fails reads back what is there: a marker that was said to exist is a
/// collision and must be there; another failure may or may not have left one.
pub proof fn law_an_attempt_that_fails_to_create(
    already_exists: bool,
    readback: ZeroFileObservation,
    sync: DirectorySync,
)
    ensures
        ({
            let failed = ReservationAttempt::Creating.after(
                ReservationEvent::CreateFailed { already_exists },
                sync,
            );
            &&& failed.spec_action() == ReservationAction::ReadBack
            &&& failed.after(ReservationEvent::ReadBack(readback), sync)
                == ReservationAttempt::Finished(
                match reservation::readback_outcome(readback, None) {
                    ReservationReadback::Canonical => if already_exists {
                        ReservationPhysicalObservation::AlreadyExistsCanonical
                    } else {
                        ReservationPhysicalObservation::CreateErrorPresent
                    },
                    ReservationReadback::Absent => if already_exists {
                        ReservationPhysicalObservation::Corrupt
                    } else {
                        ReservationPhysicalObservation::CreateErrorAbsent
                    },
                    ReservationReadback::Corrupt => ReservationPhysicalObservation::Corrupt,
                    ReservationReadback::Indeterminate =>
                        ReservationPhysicalObservation::Indeterminate,
                },
            )
        }),
{
}

/// What an observation means for a candidate: a new identity that was created is handed out; a known
/// one that was found to exist is passed over, at most thirty-one times; what fails without a
/// contradiction is unavailable; and every contradiction between what is known and what is seen is
/// corrupt.
pub proof fn law_what_an_observation_means(
    candidate: u128,
    was_present: bool,
    observation: ReservationPhysicalObservation,
    collisions: nat,
)
    requires
        collisions < 32,
    ensures
        reservation::reconciled(candidate, was_present, observation, collisions) == match observation {
            ReservationPhysicalObservation::Created => if was_present {
                Err::<Option<u128>, ReservationFailure>(ReservationFailure::DurableStateCorrupt)
            } else {
                Ok(Some(candidate))
            },
            ReservationPhysicalObservation::AlreadyExistsCanonical => if !was_present {
                Err(ReservationFailure::DurableStateCorrupt)
            } else if collisions == 31 {
                Err(ReservationFailure::CollisionAttemptsExhausted)
            } else {
                Ok(None)
            },
            ReservationPhysicalObservation::CreateErrorAbsent => if was_present {
                Err(ReservationFailure::DurableStateCorrupt)
            } else {
                Err(ReservationFailure::StorageUnavailable)
            },
            ReservationPhysicalObservation::CreateErrorPresent => Err(
                ReservationFailure::StorageUnavailable,
            ),
            ReservationPhysicalObservation::CreatedThenErrorPresent => if was_present {
                Err(ReservationFailure::DurableStateCorrupt)
            } else {
                Err(ReservationFailure::StorageUnavailable)
            },
            ReservationPhysicalObservation::Corrupt => Err(
                ReservationFailure::DurableStateCorrupt,
            ),
            ReservationPhysicalObservation::Indeterminate => Err(
                ReservationFailure::IndeterminatePoisoned,
            ),
        },
        reservation::adds_marker(was_present, observation) <==> !was_present && (observation
            == ReservationPhysicalObservation::Created || observation
            == ReservationPhysicalObservation::CreateErrorPresent || observation
            == ReservationPhysicalObservation::CreatedThenErrorPresent),
{
}

/// A search hands out the first candidate that is new and whose marker is created; it asks for another
/// one after each that is known to be reserved.
pub proof fn law_a_search_takes_the_first_free_candidate(
    inventory: ReservationInventoryView,
    collisions: usize,
    candidate: AgentId,
)
    requires
        collisions < 32,
    ensures
        ({
            let asking = AgentReservation::Generating { collisions };
            let trying = asking.after(inventory, AgentReservationEvent::Candidate(candidate)).state;
            let known = inventory.recovered.contains(candidate@) || inventory.created.contains(
                candidate@,
            );
            &&& asking.after(inventory, AgentReservationEvent::Candidate(candidate)).inventory
                == inventory
            &&& asking.after(inventory, AgentReservationEvent::Closing) == (AgentReservationStep {
                state: AgentReservation::Finished(Err(DurableAgentCreateError::Closing)),
                inventory,
            })
            &&& asking.after(inventory, AgentReservationEvent::CandidateUnavailable) == (
            AgentReservationStep {
                state: AgentReservation::Finished(
                    Err(DurableAgentCreateError::IdentityUnavailable),
                ),
                inventory,
            })
            &&& !known ==> trying.after(
                inventory,
                AgentReservationEvent::Attempted(Ok(ReservationPhysicalObservation::Created)),
            ) == (AgentReservationStep {
                state: AgentReservation::Finished(Ok(candidate)),
                inventory: ReservationInventoryView {
                    recovered: inventory.recovered,
                    created: inventory.created.insert(candidate@),
                },
            })
            &&& known && collisions < 31 ==> trying.after(
                inventory,
                AgentReservationEvent::Attempted(
                    Ok(ReservationPhysicalObservation::AlreadyExistsCanonical),
                ),
            ) == (AgentReservationStep {
                state: AgentReservation::Generating { collisions: (collisions + 1) as usize },
                inventory,
            })
            &&& forall|error: DurableAgentCreateError|
                #[trigger] trying.after(
                    inventory,
                    AgentReservationEvent::Attempted(Err(error)),
                ) == (AgentReservationStep {
                    state: AgentReservation::Finished(Err(error)),
                    inventory,
                })
        }),
{
}

/// How a failed reservation is told: contradictions and doubts are an unavailable dispatch, everything
/// else is told as it is.
pub proof fn law_how_a_failed_reservation_is_told(failure: ReservationFailure)
    ensures
        reservation::create_failure(failure) == match failure {
            ReservationFailure::Closing => DurableAgentCreateError::Closing,
            ReservationFailure::CollisionAttemptsExhausted =>
                DurableAgentCreateError::CollisionAttemptsExhausted,
            ReservationFailure::StorageUnavailable => DurableAgentCreateError::StorageUnavailable,
            _ => DurableAgentCreateError::InternalDispatchUnavailable,
        },
{
}

/// What is known of an attempt that ran elsewhere: what it observed, unless a close won against it. An
/// attempt that was lost is in doubt exactly if it had crossed its barrier.
pub proof fn law_what_is_known_of_an_attempt(
    observation: ReservationPhysicalObservation,
    error: RuntimeTaskError,
    stage: ReservationAttemptStage,
    closing_won: bool,
)
    ensures
        barrier::settled_reservation(
            Ok(ReservationAttemptJobOutcome::Observed(observation)),
            stage,
            closing_won,
        ) == if closing_won {
            Err::<ReservationPhysicalObservation, ReservationFailure>(
                ReservationFailure::IndeterminatePoisoned,
            )
        } else {
            Ok(observation)
        },
        barrier::settled_reservation(
            Ok(ReservationAttemptJobOutcome::Cancelled),
            stage,
            closing_won,
        ) == Err::<ReservationPhysicalObservation, ReservationFailure>(
            if closing_won {
                ReservationFailure::Closing
            } else {
                ReservationFailure::IndeterminatePoisoned
            },
        ),
        barrier::settled_reservation(Err(error), stage, closing_won) == Err::<
            ReservationPhysicalObservation,
            ReservationFailure,
        >(
            if stage == ReservationAttemptStage::Crossed {
                ReservationFailure::IndeterminatePoisoned
            } else if error == RuntimeTaskError::OwnerClosing {
                ReservationFailure::Closing
            } else {
                ReservationFailure::StorageUnavailable
            },
        ),
{
}

/// A search starts exactly while fewer than a million identities are reserved, recovered and created
/// ones together, and asks for its first candidate.
pub proof fn law_a_search_starts_below_a_million(inventory: ReservationInventoryView)
    ensures
        inventory.recovered.len() + inventory.created.len() < 1_000_000 ==> AgentReservation::begun(
            inventory,
        ) == (AgentReservation::Generating { collisions: 0 }),
        inventory.recovered.len() + inventory.created.len() >= 1_000_000 ==> AgentReservation::begun(
            inventory,
        ) == AgentReservation::Finished(Err(DurableAgentCreateError::DurableStateTooLarge)),
        forall|id: u128|
            #[trigger] inventory.contains(id) <==> inventory.recovered.contains(id)
                || inventory.created.contains(id),
        forall|id: u128|
            #[trigger] inventory.with(id) == (ReservationInventoryView {
                recovered: inventory.recovered,
                created: inventory.created.insert(id),
            }),
{
}

/// Why a marker that looks canonical at first sight does not read back: a look that fails leaves it open,
/// a path that is gone and a look that shows another file are corrupt, a read that fails leaves it open and
/// one that returns anything is corrupt; and the same once more behind the read.
pub proof fn law_why_a_marker_does_not_read_back(
    observation: ZeroFileObservation,
    expected: Option<CleanupNodeIdentityShape>,
)
    requires
        observation.file.initial_path is Ok,
        physical_laws::shows(
            observation.file.initial_path,
            observation.file.initial_path->Ok_0.identity,
            0,
        ),
    ensures
        ({
            let identity = observation.file.initial_path->Ok_0.identity;
            let file = observation.file;
            let doubtful = ReservationReadback::Indeterminate;
            let corrupt = ReservationReadback::Corrupt;
            let gone = Err::<NodeMetadata, LookupError>(LookupError::NotFound);
            let outcome = reservation::readback_outcome(observation, expected);
            if !file.opened || file.handle is Err {
                outcome == doubtful
            } else if file.path == gone {
                outcome == corrupt
            } else if file.path is Err {
                outcome == doubtful
            } else if !physical_laws::shows(file.handle, identity, 0) || !physical_laws::shows(
                file.path,
                identity,
                0,
            ) || (expected is Some && expected->0 != identity) {
                outcome == corrupt
            } else if observation.read is None {
                outcome == doubtful
            } else if observation.read != Some(0usize) {
                outcome == corrupt
            } else if file.final_handle is Err {
                outcome == doubtful
            } else if file.final_path == gone {
                outcome == corrupt
            } else if file.final_path is Err {
                outcome == doubtful
            } else if !physical_laws::shows(file.final_handle, identity, 0)
                || !physical_laws::shows(file.final_path, identity, 0) {
                outcome == corrupt
            } else {
                outcome == ReservationReadback::Canonical
            }
        }),
{
}

/// Every observation of a candidate settles the search, hands the candidate out or asks for another one,
/// as it means; and the inventory gains the candidate exactly where its marker is new and there.
pub proof fn law_every_observation_settles_a_candidate(
    inventory: ReservationInventoryView,
    collisions: usize,
    candidate: AgentId,
    observation: ReservationPhysicalObservation,
)
    requires
        collisions < 32,
    ensures
        ({
            let known = inventory.recovered.contains(candidate@) || inventory.created.contains(
                candidate@,
            );
            let after = (AgentReservation::Attempting { collisions, candidate }).after(
                inventory,
                AgentReservationEvent::Attempted(Ok(observation)),
            );
            let there = observation == ReservationPhysicalObservation::Created || observation
                == ReservationPhysicalObservation::CreateErrorPresent || observation
                == ReservationPhysicalObservation::CreatedThenErrorPresent;
            &&& after.inventory.recovered == inventory.recovered
            &&& after.inventory.created == if !known && there {
                inventory.created.insert(candidate@)
            } else {
                inventory.created
            }
            &&& match reservation::reconciled(
                candidate@,
                known,
                observation,
                collisions as nat,
            ) {
                Ok(Some(_)) => after.state == AgentReservation::Finished(Ok(candidate)),
                Ok(None) => after.state == (AgentReservation::Generating {
                    collisions: (collisions + 1) as usize,
                }),
                Err(failure) => after.state == AgentReservation::Finished(
                    Err(reservation::create_failure(failure)),
                ),
            }
        }),
{
}

} // verus!
