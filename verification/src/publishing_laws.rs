//! How a publication goes on after each answer, said over the answers.

use crate::agent_chain;
use crate::agent_chain::AgentEntryView;
use crate::barrier::DurableCommitStage;
use crate::cleanup_run;
use crate::cleanup_run::{CleanupAction, CleanupEvent, CleanupPhase, CleanupRunView, DirectorySync};
use crate::entity_scan;
use crate::entity_scan::{EntityKind, EntityScanModel};
use crate::cleanup_plan;
use crate::cleanup_plan::DeferredCleanup;
use crate::generation::StorageGeneration;
use crate::head::AgentHeadView;
use crate::lifecycle::AgentDefinitionView;
use crate::location::{EntityKey, StoreLocation};
use crate::open_error;
use crate::open_error::{
    DurableAgentCreateError, DurableOpenError, DurableStoreCodecError, RuntimeTaskError,
};
use crate::physical::{LookupError, NodeMetadata, StoreLimits};
use crate::publication;
use crate::publication::{
    PublicationEvent, PublicationMoment, PublicationSegment, PublicationStateView, PublicationStep,
    PublicationView,
};
use crate::publication_check;
use crate::publication_check::{
    PublicationCertainty, PublicationResultView, PublicationWait, PublicationWorkResult,
    PublishedAgentObservation, ReadbackObservation, StagingDecision, StagingObservation,
};
use crate::recovery;
use crate::recovery_laws;
use crate::cleanup_laws;
use vstd::prelude::*;

verus! {

/// What a readback says: exactly the expected bytes confirm it, other bytes and a file that is corrupt
/// or too large poison it, an absent file shows that nothing is there, and anything else leaves it open.
pub proof fn law_what_a_readback_says(
    observation: ReadbackObservation,
    expected: Seq<u8>,
    limits: StoreLimits,
)
    ensures
        ({
            let said = observation.certainty(expected, limits);
            match observation.document.outcome(limits) {
                Ok(content) => said == if content == expected {
                    PublicationCertainty::Published
                } else {
                    PublicationCertainty::CommittedCorruptPoisoned
                },
                Err(error) => match observation.lookup {
                    Err(LookupError::NotFound) => said == PublicationCertainty::NotPublished,
                    Err(LookupError::Unreadable) => said
                        == PublicationCertainty::IndeterminatePoisoned,
                    Ok(_) => said == if error == DurableOpenError::DurableStateCorrupt || error
                        == DurableOpenError::DurableStateTooLarge {
                        PublicationCertainty::CommittedCorruptPoisoned
                    } else {
                        PublicationCertainty::IndeterminatePoisoned
                    },
                },
            }
        }),
{
}

/// A published Agent is found again exactly if the marker reads back empty, both documents read back
/// with exactly their bytes, and its entity scans as published, with nothing staged, and recovers. What
/// is found is the Agent that was recovered.
pub proof fn law_a_published_agent_is_found_again(
    observation: PublishedAgentObservation,
    agent_id: u128,
    head: Seq<u8>,
    definition: Seq<u8>,
    limits: StoreLimits,
)
    ensures
        ({
            let found = observation.outcome(agent_id, head, definition, limits);
            let scanned = entity_scan::entity_outcome(
                observation.entity,
                EntityKind::Agent,
                1_000_000usize,
                limits,
            );
            let confirmed = {
                &&& observation.published.document.outcome(limits) == Ok::<
                    Seq<u8>,
                    DurableOpenError,
                >(Seq::empty())
                &&& observation.head.document.outcome(limits) == Ok::<Seq<u8>, DurableOpenError>(
                    head,
                )
                &&& observation.definition.document.outcome(limits) == Ok::<
                    Seq<u8>,
                    DurableOpenError,
                >(definition)
            };
            &&& found is Ok ==> confirmed
            &&& confirmed ==> match scanned {
                Ok(EntityScanModel::Published { committed, markerless: None }) => {
                    match agent_chain::agent_folded(
                        agent_id,
                        recovery::agent_generation_views(committed, observation.documents@),
                    ) {
                        Ok(entry) => found == Ok::<AgentEntryView, PublicationCertainty>(entry),
                        Err(error) => found == Err::<AgentEntryView, PublicationCertainty>(
                            if error == DurableOpenError::StorageUnavailable {
                                PublicationCertainty::IndeterminatePoisoned
                            } else {
                                PublicationCertainty::CommittedCorruptPoisoned
                            },
                        ),
                    }
                },
                Ok(_) => found == Err::<AgentEntryView, PublicationCertainty>(
                    PublicationCertainty::CommittedCorruptPoisoned,
                ),
                Err(error) => found == Err::<AgentEntryView, PublicationCertainty>(
                    if error == DurableOpenError::StorageUnavailable {
                        PublicationCertainty::IndeterminatePoisoned
                    } else {
                        PublicationCertainty::CommittedCorruptPoisoned
                    },
                ),
            }
        }),
{
}

/// What becomes of the staging of a failed publication: it stays untouched unless its reservation is
/// still an empty marker; there is nothing to do where its directory is gone; otherwise exactly what
/// was scanned is planned for removal, if it may be removed, and of a committed one only where the
/// marker behind it was found absent.
pub proof fn law_what_becomes_of_staging(
    observation: StagingObservation,
    agent_id: u128,
    allow_committed: bool,
    limits: StoreLimits,
)
    ensures
        ({
            let decision = observation.decision(agent_id, allow_committed, limits);
            if !cleanup_laws::is_empty_private_file(observation.reservation) {
                decision == StagingDecision::Poisoned
            } else if observation.directory == Err::<NodeMetadata, LookupError>(
                LookupError::NotFound,
            ) {
                decision == StagingDecision::Absent
            } else if observation.directory is Err {
                decision == StagingDecision::Poisoned
            } else {
                match entity_scan::entity_outcome(
                    observation.entity,
                    EntityKind::Agent,
                    1_000_000usize,
                    limits,
                ) {
                    Ok(EntityScanModel::Unpublished(files)) => {
                        let committed = files.generations is Some
                            && files.generations->0.generation is Some
                            && files.generations->0.generation->0.committed_shape is Some;
                        if (committed && !allow_committed) || recovery::agent_candidate_outcome(
                            agent_id,
                            files,
                            observation.documents,
                        ) is Err {
                            decision == StagingDecision::Poisoned
                        } else {
                            decision matches StagingDecision::Remove(plan)
                                && recovery_laws::removes_entity(
                                Some(DeferredCleanup::UnpublishedEntity(plan)),
                                EntityKind::Agent,
                                agent_id,
                                files,
                                1_000_000usize,
                                observation.reservation->Ok_0.identity,
                            )
                        }
                    },
                    _ => decision == StagingDecision::Poisoned,
                }
            }
        }),
{
}

/// A prepared publication starts exactly if both documents were encoded and make an Agent, whatever its
/// name, its description and its execution, and it was not cancelled. Otherwise nothing is touched:
/// a document that is too large is reported as such, and a cancelled one reads what is there first.
pub proof fn law_which_publications_start(
    definition: AgentDefinitionView,
    head: AgentHeadView,
    head_bytes: Result<Vec<u8>, DurableStoreCodecError>,
    definition_bytes: Result<Vec<u8>, DurableStoreCodecError>,
    stage: DurableCommitStage,
)
    ensures
        ({
            let state = publication::begun(definition, head, head_bytes, definition_bytes, stage);
            match (head_bytes, definition_bytes) {
                (Err(error), _) => state == PublicationStateView::Finished(
                    PublicationResultView::Ordinary {
                        error: open_error::publication_codec_error(error),
                        close_required: false,
                    },
                ),
                (Ok(_), Err(error)) => state == PublicationStateView::Finished(
                    PublicationResultView::Ordinary {
                        error: open_error::publication_codec_error(error),
                        close_required: false,
                    },
                ),
                (Ok(_), Ok(_)) => if !recovery_laws::make_an_agent(
                    definition.agent_id,
                    head,
                    definition,
                ) {
                    state == PublicationStateView::Finished(PublicationResultView::Poisoned)
                } else if stage == DurableCommitStage::Cancelled {
                    state == (PublicationStateView::Staging {
                        allow_committed: false,
                        error: DurableAgentCreateError::Closing,
                        close_required: false,
                    })
                } else {
                    state == (PublicationStateView::Stepping {
                        segment: PublicationSegment::Precommit,
                        position: 0,
                    })
                },
            }
        }),
{
}

/// The steps of a publication where directories can be made durable: everything is created inside out
/// of its own directory, looked at, written, made durable and read back, the marker of the commit
/// before that of the publication.
pub proof fn law_the_steps_of_a_durable_publication(agent_id: u128, close_required: bool)
    ensures
        ({
            let key = EntityKey { kind: EntityKind::Agent, id: agent_id };
            let first = StorageGeneration::of(1);
            let entity = StoreLocation::Entity(key);
            let generations = StoreLocation::Generations(key);
            let generation = StoreLocation::Generation(key, first);
            let head = StoreLocation::Head(key, first);
            let definition = StoreLocation::Definition(key, first);
            let committed = StoreLocation::Committed(key, first);
            let published = StoreLocation::Published(key);
            let agents = StoreLocation::EntityCollection(EntityKind::Agent);
            let sync = DirectorySync::Supported;
            &&& publication::segment_steps(PublicationSegment::Precommit, agent_id, sync) == seq![
                PublicationStep::CreateDirectory(entity),
                PublicationStep::SyncDirectory(agents),
                PublicationStep::CreateDirectory(generations),
                PublicationStep::SyncDirectory(entity),
                PublicationStep::CreateDirectory(generation),
                PublicationStep::SyncDirectory(generations),
                PublicationStep::CreateFile(head),
                PublicationStep::InspectFile(head),
                PublicationStep::WriteFile(head),
                PublicationStep::SyncFile(head),
                PublicationStep::CreateFile(definition),
                PublicationStep::InspectFile(definition),
                PublicationStep::WriteFile(definition),
                PublicationStep::SyncFile(definition),
                PublicationStep::SyncDirectory(generation),
                PublicationStep::ReadBack(head),
                PublicationStep::ReadBack(definition),
            ]
            &&& publication::segment_steps(PublicationSegment::Commit, agent_id, sync) == seq![
                PublicationStep::CreateFile(committed),
                PublicationStep::InspectFile(committed),
                PublicationStep::SyncFile(committed),
                PublicationStep::SyncDirectory(generation),
                PublicationStep::ReadBack(committed),
                PublicationStep::ReadBack(head),
                PublicationStep::ReadBack(definition),
            ]
            &&& publication::segment_steps(PublicationSegment::CommittedCheck, agent_id, sync)
                == seq![
                PublicationStep::ReadBack(committed),
                PublicationStep::ReadBack(head),
                PublicationStep::ReadBack(definition),
            ]
            &&& publication::segment_steps(PublicationSegment::CommittedResync, agent_id, sync)
                == seq![
                PublicationStep::OpenFile(committed),
                PublicationStep::InspectFile(committed),
                PublicationStep::SyncFile(committed),
                PublicationStep::SyncDirectory(generation),
            ]
            &&& publication::segment_steps(
                PublicationSegment::Publish { close_required },
                agent_id,
                sync,
            ) == seq![
                PublicationStep::CreateFile(published),
                PublicationStep::InspectFile(published),
                PublicationStep::SyncFile(published),
                PublicationStep::SyncDirectory(entity),
                PublicationStep::SyncDirectory(agents),
                PublicationStep::Recover,
            ]
            &&& publication::segment_steps(
                PublicationSegment::PublishedResync { close_required },
                agent_id,
                sync,
            ) == seq![
                PublicationStep::OpenFile(published),
                PublicationStep::InspectFile(published),
                PublicationStep::SyncFile(published),
                PublicationStep::SyncDirectory(entity),
                PublicationStep::SyncDirectory(agents),
            ]
            &&& forall|error: DurableAgentCreateError| #[trigger]
                publication::segment_steps(
                    PublicationSegment::PublishedCheck { close_required, error },
                    agent_id,
                    sync,
                ) == seq![PublicationStep::ReadBack(published)]
            &&& publication::segment_steps(
                PublicationSegment::PublishedRecovery { close_required },
                agent_id,
                sync,
            ) == seq![PublicationStep::Recover]
        }),
{
    reveal(publication::segment_steps);
}

/// Where directories cannot be made durable, the steps of a publication are the same without the syncs
/// of directories.
pub proof fn law_the_steps_without_directory_syncs(agent_id: u128, close_required: bool)
    ensures
        ({
            let key = EntityKey { kind: EntityKind::Agent, id: agent_id };
            let first = StorageGeneration::of(1);
            let head = StoreLocation::Head(key, first);
            let definition = StoreLocation::Definition(key, first);
            let committed = StoreLocation::Committed(key, first);
            let published = StoreLocation::Published(key);
            let sync = DirectorySync::Unsupported;
            &&& publication::segment_steps(PublicationSegment::Precommit, agent_id, sync) == seq![
                PublicationStep::CreateDirectory(StoreLocation::Entity(key)),
                PublicationStep::CreateDirectory(StoreLocation::Generations(key)),
                PublicationStep::CreateDirectory(StoreLocation::Generation(key, first)),
                PublicationStep::CreateFile(head),
                PublicationStep::InspectFile(head),
                PublicationStep::WriteFile(head),
                PublicationStep::SyncFile(head),
                PublicationStep::CreateFile(definition),
                PublicationStep::InspectFile(definition),
                PublicationStep::WriteFile(definition),
                PublicationStep::SyncFile(definition),
                PublicationStep::ReadBack(head),
                PublicationStep::ReadBack(definition),
            ]
            &&& publication::segment_steps(PublicationSegment::Commit, agent_id, sync) == seq![
                PublicationStep::CreateFile(committed),
                PublicationStep::InspectFile(committed),
                PublicationStep::SyncFile(committed),
                PublicationStep::ReadBack(committed),
                PublicationStep::ReadBack(head),
                PublicationStep::ReadBack(definition),
            ]
            &&& publication::segment_steps(PublicationSegment::CommittedCheck, agent_id, sync)
                == seq![
                PublicationStep::ReadBack(committed),
                PublicationStep::ReadBack(head),
                PublicationStep::ReadBack(definition),
            ]
            &&& publication::segment_steps(PublicationSegment::CommittedResync, agent_id, sync)
                == seq![
                PublicationStep::OpenFile(committed),
                PublicationStep::InspectFile(committed),
                PublicationStep::SyncFile(committed),
            ]
            &&& publication::segment_steps(
                PublicationSegment::Publish { close_required },
                agent_id,
                sync,
            ) == seq![
                PublicationStep::CreateFile(published),
                PublicationStep::InspectFile(published),
                PublicationStep::SyncFile(published),
                PublicationStep::Recover,
            ]
            &&& publication::segment_steps(
                PublicationSegment::PublishedResync { close_required },
                agent_id,
                sync,
            ) == seq![
                PublicationStep::OpenFile(published),
                PublicationStep::InspectFile(published),
                PublicationStep::SyncFile(published),
            ]
            &&& forall|error: DurableAgentCreateError| #[trigger]
                publication::segment_steps(
                    PublicationSegment::PublishedCheck { close_required, error },
                    agent_id,
                    sync,
                ) == seq![PublicationStep::ReadBack(published)]
            &&& publication::segment_steps(
                PublicationSegment::PublishedRecovery { close_required },
                agent_id,
                sync,
            ) == seq![PublicationStep::Recover]
        }),
{
    reveal(publication::segment_steps);
}

/// Whether an answer says that a step was done: it was performed, or what was inspected is private, or
/// what was read back is exactly what was written.
pub open spec fn is_done(
    publication: PublicationView,
    step: PublicationStep,
    event: PublicationEvent,
) -> bool {
    match (step, event) {
        (PublicationStep::InspectFile(_), PublicationEvent::Seen(Ok(metadata))) => metadata.mode
            % 4096 == 384,
        (PublicationStep::ReadBack(location), PublicationEvent::ReadBack(observation)) => {
            observation.document.outcome(publication.limits) == Ok::<Seq<u8>, DurableOpenError>(
                match location {
                    StoreLocation::Head(_, _) => publication.head,
                    StoreLocation::Definition(_, _) => publication.definition,
                    _ => Seq::empty(),
                },
            )
        },
        (PublicationStep::InspectFile(_), _) => false,
        (PublicationStep::ReadBack(_), _) => false,
        (PublicationStep::Recover, _) => false,
        (_, PublicationEvent::Performed(succeeded)) => succeeded,
        _ => false,
    }
}

/// A step that is done leads on to the next one of its stretch. Behind the last one, staging leads to
/// the commit unless the publication was cancelled by then, the commit to the publication, and every
/// check to what it is about. A publication that was cancelled before its barrier stops between two
/// files.
pub proof fn law_a_step_that_is_done_leads_on(
    publication: PublicationView,
    segment: PublicationSegment,
    position: nat,
    event: PublicationEvent,
    stage: DurableCommitStage,
)
    requires
        publication.state == (PublicationStateView::Stepping { segment, position }),
        position < publication.steps(segment).len(),
        !(publication.steps(segment)[position as int] is Recover),
    ensures
        ({
            let steps = publication.steps(segment);
            let next = publication.next(event, stage);
            let cancelled = PublicationStateView::Staging {
                allow_committed: false,
                error: DurableAgentCreateError::Closing,
                close_required: false,
            };
            is_done(publication, steps[position as int], event) ==> if position + 1 < steps.len() {
                let continued = steps[position as int + 1];
                if segment == PublicationSegment::Precommit && stage
                    == DurableCommitStage::Cancelled && !(continued is InspectFile || continued
                    is WriteFile || continued is SyncFile) {
                    next == cancelled
                } else {
                    next == (PublicationStateView::Stepping { segment, position: position + 1 })
                }
            } else {
                match segment {
                    PublicationSegment::Precommit => if stage == DurableCommitStage::Pending {
                        next == (PublicationStateView::Stepping {
                            segment: PublicationSegment::Commit,
                            position: 0,
                        })
                    } else {
                        next == cancelled
                    },
                    PublicationSegment::Commit => next == (PublicationStateView::Stepping {
                        segment: PublicationSegment::Publish { close_required: false },
                        position: 0,
                    }),
                    PublicationSegment::CommittedCheck => next == (
                    PublicationStateView::Stepping {
                        segment: PublicationSegment::CommittedResync,
                        position: 0,
                    }),
                    PublicationSegment::CommittedResync => next == (
                    PublicationStateView::Stepping {
                        segment: PublicationSegment::Publish { close_required: true },
                        position: 0,
                    }),
                    PublicationSegment::PublishedCheck { close_required, .. } => next == (
                    PublicationStateView::Stepping {
                        segment: PublicationSegment::PublishedResync { close_required },
                        position: 0,
                    }),
                    PublicationSegment::PublishedResync { close_required } => next == (
                    PublicationStateView::Stepping {
                        segment: PublicationSegment::PublishedRecovery { close_required },
                        position: 0,
                    }),
                    _ => true,
                }
            }
        }),
        publication.checked(publication.steps(segment)[position as int], event) is Ok <==> is_done(
            publication,
            publication.steps(segment)[position as int],
            event,
        ),
{
    let step = publication.steps(segment)[position as int];
    assert(publication.checked(step, event) is Ok <==> is_done(publication, step, event));
}

/// A step that is not done is never passed over. Before the barrier the staging is read for removal;
/// around a marker what is really there decides; a durability step that fails twice is given up, and
/// the owner closes.
pub proof fn law_a_step_that_is_not_done(
    publication: PublicationView,
    segment: PublicationSegment,
    position: nat,
    event: PublicationEvent,
    stage: DurableCommitStage,
)
    requires
        publication.state == (PublicationStateView::Stepping { segment, position }),
        position < publication.steps(segment).len(),
        !(publication.steps(segment)[position as int] is Recover),
        !is_done(publication, publication.steps(segment)[position as int], event),
    ensures
        ({
            let step = publication.steps(segment)[position as int];
            let next = publication.next(event, stage);
            let poisoned = PublicationStateView::Finished(PublicationResultView::Poisoned);
            let absent = match (step, event) {
                (PublicationStep::ReadBack(_), PublicationEvent::ReadBack(observation)) => {
                    observation.document.outcome(publication.limits) is Err && observation.lookup
                        == Err::<NodeMetadata, LookupError>(LookupError::NotFound)
                },
                _ => false,
            };
            match segment {
                PublicationSegment::Precommit => next == (PublicationStateView::Staging {
                    allow_committed: false,
                    error: if stage == DurableCommitStage::Cancelled {
                        DurableAgentCreateError::Closing
                    } else {
                        DurableAgentCreateError::StorageUnavailable
                    },
                    close_required: false,
                }),
                PublicationSegment::Commit => next == (PublicationStateView::Stepping {
                    segment: PublicationSegment::CommittedCheck,
                    position: 0,
                }),
                PublicationSegment::CommittedCheck => if position == 0 && absent {
                    next == (PublicationStateView::Staging {
                        allow_committed: true,
                        error: DurableAgentCreateError::StorageUnavailable,
                        close_required: false,
                    })
                } else {
                    next == poisoned
                },
                PublicationSegment::CommittedResync => next == (PublicationStateView::Stepping {
                    segment: PublicationSegment::Publish { close_required: true },
                    position: 0,
                }),
                PublicationSegment::Publish { close_required } => next == (
                PublicationStateView::Stepping {
                    segment: PublicationSegment::PublishedCheck {
                        close_required: close_required || position > 0,
                        error: DurableAgentCreateError::StorageUnavailable,
                    },
                    position: 0,
                }),
                PublicationSegment::PublishedCheck { close_required, error } => if absent {
                    next == (PublicationStateView::Staging {
                        allow_committed: true,
                        error,
                        close_required,
                    })
                } else {
                    next == poisoned
                },
                PublicationSegment::PublishedResync { .. } => next == (
                PublicationStateView::Stepping {
                    segment: PublicationSegment::PublishedRecovery { close_required: true },
                    position: 0,
                }),
                PublicationSegment::PublishedRecovery { .. } => next == poisoned,
            }
        }),
{
    let step = publication.steps(segment)[position as int];
    assert(publication.checked(step, event) is Ok <==> is_done(publication, step, event));
}

/// An Agent that is found again is reported with exactly what was found. One that is not found again
/// directly behind its publication is checked once more; after that it is poisoned.
pub proof fn law_what_is_found_again_is_reported(
    publication: PublicationView,
    segment: PublicationSegment,
    position: nat,
    observation: PublishedAgentObservation,
    stage: DurableCommitStage,
)
    requires
        publication.state == (PublicationStateView::Stepping { segment, position }),
        position < publication.steps(segment).len(),
        publication.steps(segment)[position as int] is Recover,
    ensures
        ({
            let next = publication.next(PublicationEvent::Recovered(observation), stage);
            let found = observation.outcome(
                publication.agent_id,
                publication.head,
                publication.definition,
                publication.limits,
            );
            match (segment, found) {
                (PublicationSegment::Publish { close_required }, Ok(entry)) => next
                    == PublicationStateView::Finished(
                    PublicationResultView::Published { entry, close_required },
                ),
                (PublicationSegment::PublishedRecovery { close_required }, Ok(entry)) => next
                    == PublicationStateView::Finished(
                    PublicationResultView::Published { entry, close_required },
                ),
                (PublicationSegment::Publish { .. }, Err(certainty)) => next == (
                PublicationStateView::Stepping {
                    segment: PublicationSegment::PublishedCheck {
                        close_required: true,
                        error: if certainty == PublicationCertainty::NotPublished || certainty
                            == PublicationCertainty::Published {
                            DurableAgentCreateError::StorageUnavailable
                        } else {
                            DurableAgentCreateError::InternalDispatchUnavailable
                        },
                    },
                    position: 0,
                }),
                _ => next == PublicationStateView::Finished(PublicationResultView::Poisoned),
            }
        }),
{
}

/// How a failed publication ends: where nothing was staged, or what was staged is removed, with its
/// own error; where a removal fails, the owner also closes; where anything else stands in the way, it
/// is poisoned and nothing is removed.
pub proof fn law_how_a_failed_publication_ends(
    publication: PublicationView,
    allow_committed: bool,
    error: DurableAgentCreateError,
    close_required: bool,
    staging: StagingObservation,
    plan: cleanup_plan::DeferredUnpublishedEntityCleanup,
    look: cleanup_plan::EntityCleanupObservation,
    run: CleanupRunView,
    event: CleanupEvent,
    stage: DurableCommitStage,
)
    ensures
        ({
            let poisoned = PublicationStateView::Finished(PublicationResultView::Poisoned);
            let ended = |closes: bool|
                PublicationStateView::Finished(
                    PublicationResultView::Ordinary { error, close_required: closes },
                );
            let at = |state: PublicationStateView| PublicationView { state, ..publication };
            &&& at(PublicationStateView::Staging { allow_committed, error, close_required }).next(
                PublicationEvent::Staging(staging),
                stage,
            ) == match staging.decision(
                publication.agent_id,
                allow_committed,
                publication.limits,
            ) {
                StagingDecision::Absent => ended(close_required),
                StagingDecision::Poisoned => poisoned,
                StagingDecision::Remove(plan) => PublicationStateView::Planned {
                    plan,
                    error,
                    close_required,
                },
            }
            &&& at(PublicationStateView::Planned { plan, error, close_required }).next(
                PublicationEvent::Removal(look),
                stage,
            ) == if cleanup_plan::entity_revalidation(plan, look, publication.limits) is Ok {
                PublicationStateView::Removing {
                    run: CleanupRunView {
                        steps: cleanup_run::entity_steps(plan, publication.sync),
                        position: 0,
                        phase: CleanupPhase::Performing,
                    },
                    error,
                    close_required,
                }
            } else {
                poisoned
            }
            &&& at(PublicationStateView::Removing { run, error, close_required }).next(
                PublicationEvent::Cleanup(event),
                stage,
            ) == match run.after(event).action() {
                CleanupAction::Finished(Ok(())) => ended(close_required),
                CleanupAction::Finished(Err(_)) => ended(true),
                _ => PublicationStateView::Removing {
                    run: run.after(event),
                    error,
                    close_required,
                },
            }
        }),
{
}

/// The barrier is crossed exactly by the last step of the staging, done before any cancellation.
pub proof fn law_the_barrier_is_crossed_once(
    moment: PublicationMoment,
    event: PublicationEvent,
)
    ensures
        moment.after(event).stage == if moment.stage == DurableCommitStage::Pending && (
        moment.publication.state matches PublicationStateView::Stepping { segment, position }
            && segment == PublicationSegment::Precommit && position + 1
            >= moment.publication.steps(segment).len() && is_done(
            moment.publication,
            moment.publication.steps(segment)[position as int],
            event,
        )) {
            DurableCommitStage::Crossed
        } else {
            moment.stage
        },
{
    match moment.publication.state {
        PublicationStateView::Stepping { segment, position } => {
            let step = moment.publication.steps(segment)[position as int];
            assert(moment.publication.checked(step, event) is Ok <==> is_done(
                moment.publication,
                step,
                event,
            ));
        },
        _ => {},
    }
}

/// What a request is told of its publication: the result of the work, if the work came to an end. Work
/// that was lost behind the barrier is poisoned, and so is a panic; before it the request is closing or
/// the storage unavailable. A close that won turns a failure into a closing, one that lost only adds
/// that the owner closes; what was published is handed over either way.
pub proof fn law_what_a_request_is_told(
    result: Result<PublicationWorkResult, RuntimeTaskError>,
    stage: DurableCommitStage,
)
    ensures
        ({
            let alone = publication_check::settled_publication(
                result,
                stage,
                PublicationWait::Undisturbed,
            );
            &&& match result {
                Ok(work) => alone == work@,
                Err(error) => alone == if stage == DurableCommitStage::Crossed || error
                    == RuntimeTaskError::OperationPanicked {
                    PublicationResultView::Poisoned
                } else {
                    PublicationResultView::Ordinary {
                        error: if error == RuntimeTaskError::OwnerClosing {
                            DurableAgentCreateError::Closing
                        } else {
                            DurableAgentCreateError::StorageUnavailable
                        },
                        close_required: false,
                    }
                },
            }
            &&& publication_check::settled_publication(
                result,
                stage,
                PublicationWait::CancellationWon,
            ) == match alone {
                PublicationResultView::Published { entry, .. } => PublicationResultView::Published {
                    entry,
                    close_required: true,
                },
                PublicationResultView::Ordinary { .. } => PublicationResultView::Ordinary {
                    error: DurableAgentCreateError::Closing,
                    close_required: false,
                },
                PublicationResultView::Poisoned => PublicationResultView::Poisoned,
            }
            &&& publication_check::settled_publication(
                result,
                stage,
                PublicationWait::CancellationLost,
            ) == match alone {
                PublicationResultView::Published { entry, .. } => PublicationResultView::Published {
                    entry,
                    close_required: true,
                },
                PublicationResultView::Ordinary { error, .. } => PublicationResultView::Ordinary {
                    error,
                    close_required: true,
                },
                PublicationResultView::Poisoned => PublicationResultView::Poisoned,
            }
        }),
{
}

/// How failures are told: what a codec refuses for its size is too large, everything else is corrupt
/// when it is read and unavailable when it is written.
pub proof fn law_how_codec_failures_are_told(error: DurableStoreCodecError)
    ensures
        error.is_bound() <==> error == DurableStoreCodecError::DocumentTooLarge || error
            == DurableStoreCodecError::JsonStructure,
        open_error::mapped_document_error(error) == if error
            == DurableStoreCodecError::DocumentTooLarge || error
            == DurableStoreCodecError::JsonStructure {
            DurableOpenError::DurableStateTooLarge
        } else {
            DurableOpenError::DurableStateCorrupt
        },
        open_error::publication_codec_error(error) == if error
            == DurableStoreCodecError::DocumentTooLarge || error
            == DurableStoreCodecError::JsonStructure {
            DurableAgentCreateError::DurableStateTooLarge
        } else {
            DurableAgentCreateError::StorageUnavailable
        },
{
}

/// Why a published Agent is not found again: the marker says it as it is; a document that is not there any
/// more, or holds anything else, is corrupt behind a marker, and one that cannot be read leaves it open.
/// The marker is looked at first, then the head, then the definition.
pub proof fn law_why_a_published_agent_is_not_found(
    observation: PublishedAgentObservation,
    agent_id: u128,
    head: Seq<u8>,
    definition: Seq<u8>,
    limits: StoreLimits,
)
    ensures
        ({
            let found = observation.outcome(agent_id, head, definition, limits);
            let marker = observation.published.certainty(Seq::empty(), limits);
            let first = observation.head.certainty(head, limits);
            let second = observation.definition.certainty(definition, limits);
            let behind = |certainty: PublicationCertainty|
                if certainty == PublicationCertainty::IndeterminatePoisoned {
                    PublicationCertainty::IndeterminatePoisoned
                } else {
                    PublicationCertainty::CommittedCorruptPoisoned
                };
            &&& marker != PublicationCertainty::Published ==> found == Err::<
                AgentEntryView,
                PublicationCertainty,
            >(marker)
            &&& marker == PublicationCertainty::Published && first
                != PublicationCertainty::Published ==> found == Err::<
                AgentEntryView,
                PublicationCertainty,
            >(behind(first))
            &&& marker == PublicationCertainty::Published && first
                == PublicationCertainty::Published && second != PublicationCertainty::Published
                ==> found == Err::<AgentEntryView, PublicationCertainty>(behind(second))
        }),
{
}

} // verus!
