//! What recovery makes of scanned entities and their documents, said over what the documents say.

use crate::agent_chain;
use crate::agent_chain::AgentEntryView;
use crate::cleanup_plan::DeferredCleanup;
use crate::entity_scan::{EntityKind, EntityScanModel, UnpublishedEntityFiles};
use crate::fork;
use crate::generation_scan::{CommittedGenerationFiles, MarkerlessGenerationFiles};
use crate::head::{AgentHeadView, SessionHeadView};
use crate::lifecycle::{
    AgentDefinitionView, AgentStatus, SessionDefinitionView, SessionLifecycle,
};
use crate::open_error;
use crate::open_error::{DurableOpenError, UnpublishedConversationRecoveryError};
use crate::physical::{CleanupNodeIdentityShape, NodeKind, StoreLimits};
use crate::physical_laws;
use crate::recovery;
use crate::recovery::{
    AgentDocuments, AgentRecovery, ConversationExpectation, ConversationObservation,
    PendingRecoveryView, RecoveryCandidateView, RecoveryOutcome, SessionDocuments, SessionRecovery,
    StagedSession, UnpublishedConversationRecoveryShape,
};
use crate::root_scan::MarkedRootModel;
use crate::session_chain;
use crate::session_chain::SessionEntryView;
use std::collections::VecDeque;
use vstd::prelude::*;

verus! {

/// Every committed generation is read through its own documents, in order; a definition counts only
/// where one was scanned, and a document that was not handed in is unavailable.
pub proof fn law_every_generation_has_its_own_documents(
    committed: Seq<CommittedGenerationFiles>,
    agent_documents: Seq<AgentDocuments>,
    session_documents: Seq<SessionDocuments>,
    i: int,
)
    requires
        0 <= i < committed.len(),
    ensures
        recovery::agent_generation_views(committed, agent_documents).len() == committed.len(),
        recovery::session_generation_views(committed, session_documents).len() == committed.len(),
        ({
            let view = recovery::agent_generation_views(committed, agent_documents)[i];
            &&& view.generation == committed[i].generation@
            &&& i < agent_documents.len() ==> {
                &&& match agent_documents[i].head {
                    Ok(head) => view.head == Ok::<AgentHeadView, DurableOpenError>(head@),
                    Err(error) => view.head == Err::<AgentHeadView, DurableOpenError>(error),
                }
                &&& committed[i].has_definition ==> match agent_documents[i].definition {
                    Ok(definition) => view.definition == Some(
                        Ok::<AgentDefinitionView, DurableOpenError>(definition@),
                    ),
                    Err(error) => view.definition == Some(
                        Err::<AgentDefinitionView, DurableOpenError>(error),
                    ),
                }
            }
            &&& i >= agent_documents.len() ==> view.head == Err::<AgentHeadView, DurableOpenError>(
                DurableOpenError::StorageUnavailable,
            )
            &&& !committed[i].has_definition ==> view.definition is None
        }),
        ({
            let view = recovery::session_generation_views(committed, session_documents)[i];
            &&& view.generation == committed[i].generation@
            &&& i < session_documents.len() ==> {
                &&& match session_documents[i].head {
                    Ok(head) => view.head == Ok::<SessionHeadView, DurableOpenError>(head@),
                    Err(error) => view.head == Err::<SessionHeadView, DurableOpenError>(error),
                }
                &&& committed[i].has_definition ==> match session_documents[i].definition {
                    Ok(definition) => view.definition == Some(
                        Ok::<SessionDefinitionView, DurableOpenError>(definition@),
                    ),
                    Err(error) => view.definition == Some(
                        Err::<SessionDefinitionView, DurableOpenError>(error),
                    ),
                }
            }
            &&& i >= session_documents.len() ==> view.head == Err::<
                SessionHeadView,
                DurableOpenError,
            >(DurableOpenError::StorageUnavailable)
            &&& !committed[i].has_definition ==> view.definition is None
        }),
{
}

/// Whether two documents are those of a first generation of an Agent, field by field.
pub open spec fn make_an_agent(
    agent_id: u128,
    head: AgentHeadView,
    definition: AgentDefinitionView,
) -> bool {
    &&& head.agent_id == agent_id && definition.agent_id == agent_id
    &&& head.storage_generation == 1 && head.previous_storage_generation == None::<nat>
    &&& head.current_definition_revision == 1 && definition.revision == 1
    &&& head.current_definition_storage_generation == 1
    &&& head.metadata.revision == 1
    &&& head.status == AgentStatus::Enabled
    &&& head.created_at == definition.created_at && head.created_at == head.metadata.updated_at
}

/// Staging that was not committed may be removed whatever its documents say, and whether or not they
/// can be read. Committed staging may be removed exactly if its documents make an Agent, with any name,
/// any description and any execution; an unreadable one decides with its own error.
pub proof fn law_agent_staging(
    agent_id: u128,
    files: UnpublishedEntityFiles,
    documents: Option<AgentDocuments>,
)
    ensures
        ({
            let outcome = recovery::agent_candidate_outcome(agent_id, files, documents);
            let committed = files.generations is Some && files.generations->0.generation is Some
                && files.generations->0.generation->0.committed_shape is Some;
            if !committed {
                outcome == Ok::<(), DurableOpenError>(())
            } else {
                match documents {
                    None => outcome == Err::<(), DurableOpenError>(
                        DurableOpenError::StorageUnavailable,
                    ),
                    Some(documents) => match documents.head {
                        Err(error) => outcome == Err::<(), DurableOpenError>(error),
                        Ok(head) => match documents.definition {
                            Err(error) => outcome == Err::<(), DurableOpenError>(error),
                            Ok(definition) => outcome == if make_an_agent(
                                agent_id,
                                head@,
                                definition@,
                            ) {
                                Ok::<(), DurableOpenError>(())
                            } else {
                                Err(DurableOpenError::DurableStateCorrupt)
                            },
                        },
                    },
                }
            }
        }),
{
}

/// The plan to remove a trailing generation, field by field.
pub open spec fn removes_trailing(
    cleanup: Option<DeferredCleanup>,
    kind: EntityKind,
    id: u128,
    markerless: MarkerlessGenerationFiles,
) -> bool {
    match cleanup {
        Some(DeferredCleanup::TrailingGeneration(plan)) => {
            &&& plan.key.kind == kind && plan.key.id == id
            &&& plan.generation == markerless.generation
            &&& plan.has_head == markerless.has_head
            &&& plan.has_definition == markerless.has_definition
        },
        _ => false,
    }
}

/// The plan to remove a whole unpublished entity, field by field.
pub open spec fn removes_entity(
    cleanup: Option<DeferredCleanup>,
    kind: EntityKind,
    id: u128,
    files: UnpublishedEntityFiles,
    generation_cap: usize,
    reservation: CleanupNodeIdentityShape,
) -> bool {
    match cleanup {
        Some(DeferredCleanup::UnpublishedEntity(plan)) => {
            &&& plan.key.kind == kind && plan.key.id == id
            &&& plan.entity_entry_cap == if kind == EntityKind::Agent {
                2usize
            } else {
                3usize
            }
            &&& plan.generation_collection_cap == generation_cap
            &&& plan.reservation_shape == reservation
            &&& plan.entity_shape == files.entity_shape
            &&& plan.generations == files.generations
            &&& plan.conversation_shape == files.conversation_shape
        },
        _ => false,
    }
}

/// A published Agent is in the catalog with exactly what its chain says, whatever its status. A
/// generation behind its committed ones changes nothing of that and is planned for removal. Only a
/// second entity of the same identity and a second cleanup are corrupt.
pub proof fn law_published_agents_are_recovered(
    recovered: AgentRecovery,
    id: u128,
    committed: Seq<CommittedGenerationFiles>,
    markerless: Option<MarkerlessGenerationFiles>,
    documents: Seq<AgentDocuments>,
    reservations: Map<u128, CleanupNodeIdentityShape>,
    generation_cap: usize,
)
    ensures
        ({
            let after = recovered.with(
                id,
                EntityScanModel::Published { committed, markerless },
                documents,
                reservations,
                generation_cap,
            );
            let corrupt = Err::<AgentRecovery, DurableOpenError>(
                DurableOpenError::DurableStateCorrupt,
            );
            match agent_chain::agent_folded(
                id,
                recovery::agent_generation_views(committed, documents),
            ) {
                Err(error) => after == Err::<AgentRecovery, DurableOpenError>(error),
                Ok(entry) => if recovered.agents.contains_key(id) {
                    after == corrupt
                } else {
                    match markerless {
                        None => after == Ok::<AgentRecovery, DurableOpenError>(
                            AgentRecovery {
                                agents: recovered.agents.insert(id, entry),
                                cleanup: recovered.cleanup,
                            },
                        ),
                        Some(files) => if entry.head.status == AgentStatus::Deleted
                            || recovered.cleanup is Some {
                            after == corrupt
                        } else {
                            after matches Ok(after) && after.agents == recovered.agents.insert(
                                id,
                                entry,
                            ) && removes_trailing(after.cleanup, EntityKind::Agent, id, files)
                        },
                    }
                },
            }
        }),
{
}

/// An Agent that is not published is not in the catalog. What is left of it is planned for removal, if
/// it is reserved, its staging may be removed and no other cleanup is planned.
pub proof fn law_unpublished_agents_are_not_recovered(
    recovered: AgentRecovery,
    id: u128,
    files: UnpublishedEntityFiles,
    documents: Seq<AgentDocuments>,
    reservations: Map<u128, CleanupNodeIdentityShape>,
    generation_cap: usize,
)
    ensures
        ({
            let after = recovered.with(
                id,
                EntityScanModel::Unpublished(files),
                documents,
                reservations,
                generation_cap,
            );
            let first = if documents.len() > 0 {
                Some(documents[0])
            } else {
                None::<AgentDocuments>
            };
            match recovery::agent_candidate_outcome(id, files, first) {
                Err(error) => after == Err::<AgentRecovery, DurableOpenError>(error),
                Ok(()) => if !reservations.contains_key(id) || recovered.cleanup is Some {
                    after == Err::<AgentRecovery, DurableOpenError>(
                        DurableOpenError::DurableStateCorrupt,
                    )
                } else {
                    after matches Ok(after) && after.agents == recovered.agents && removes_entity(
                        after.cleanup,
                        EntityKind::Agent,
                        id,
                        files,
                        generation_cap,
                        reservations[id],
                    )
                },
            }
        }),
{
}

/// A published Session is in the catalog with exactly what its chain says, whatever its lifecycle. A
/// generation behind its committed ones changes nothing of that and is planned for removal.
pub proof fn law_published_sessions_are_recovered(
    recovered: SessionRecovery,
    id: u128,
    committed: Seq<CommittedGenerationFiles>,
    markerless: Option<MarkerlessGenerationFiles>,
    documents: Seq<SessionDocuments>,
    agents: Map<u128, AgentEntryView>,
)
    ensures
        ({
            let after = recovered.with(
                id,
                EntityScanModel::Published { committed, markerless },
                documents,
                agents,
            );
            let corrupt = Err::<SessionRecovery, DurableOpenError>(
                DurableOpenError::DurableStateCorrupt,
            );
            match session_chain::session_folded(
                id,
                recovery::session_generation_views(committed, documents),
                agents,
            ) {
                Err(error) => after == Err::<SessionRecovery, DurableOpenError>(error),
                Ok(entry) => if recovered.sessions.contains_key(id) {
                    after == corrupt
                } else {
                    match markerless {
                        None => after == Ok::<SessionRecovery, DurableOpenError>(
                            SessionRecovery {
                                sessions: recovered.sessions.insert(id, entry),
                                cleanup: recovered.cleanup,
                                staged: recovered.staged,
                            },
                        ),
                        Some(files) => if entry.head.lifecycle == SessionLifecycle::Deleted
                            || recovered.cleanup is Some {
                            after == corrupt
                        } else {
                            after matches Ok(after) && after.sessions
                                == recovered.sessions.insert(id, entry) && after.staged
                                == recovered.staged && removes_trailing(
                                after.cleanup,
                                EntityKind::Session,
                                id,
                                files,
                            )
                        },
                    }
                },
            }
        }),
{
}

/// A Session that is not published is not in the catalog; it is kept aside with its first documents,
/// and a second one is corrupt.
pub proof fn law_unpublished_sessions_are_kept_aside(
    recovered: SessionRecovery,
    id: u128,
    files: UnpublishedEntityFiles,
    documents: Seq<SessionDocuments>,
    agents: Map<u128, AgentEntryView>,
)
    ensures
        recovered.with(id, EntityScanModel::Unpublished(files), documents, agents)
            == if recovered.staged is Some {
            Err::<SessionRecovery, DurableOpenError>(DurableOpenError::DurableStateCorrupt)
        } else {
            Ok(
                SessionRecovery {
                    sessions: recovered.sessions,
                    cleanup: recovered.cleanup,
                    staged: Some(
                        StagedSession {
                            id,
                            files,
                            documents: if documents.len() > 0 {
                                Some(documents[0])
                            } else {
                                None
                            },
                        },
                    ),
                },
            )
        },
{
}

/// Whether two documents are those of a first generation of a Session, field by field, on a retained
/// definition of an Agent.
pub open spec fn make_a_session(
    session_id: u128,
    head: SessionHeadView,
    definition: SessionDefinitionView,
    agents: Map<u128, AgentEntryView>,
) -> bool {
    &&& head.session_id == session_id && definition.session_id == session_id
    &&& head.storage_generation == 1 && head.previous_storage_generation == None::<nat>
    &&& head.current_definition_revision == 1 && definition.revision == 1
    &&& head.current_definition_storage_generation == 1
    &&& definition.workspace.revision == 1
    &&& head.metadata.revision == 1
    &&& head.lifecycle == SessionLifecycle::Open
    &&& head.created_at == definition.created_at && head.created_at == head.metadata.updated_at
    &&& head.fork_provenance is None || (head.metadata.name is None && head.metadata.description
        is None)
    &&& agents.contains_key(definition.agent_id)
    &&& agents[definition.agent_id].index.contains_key(definition.agent_revision as u64)
}

/// A committed Session that is not published may be removed exactly if its documents make a Session on
/// an enabled Agent; if moreover a Session that is no fork pins the Agent's current definition, and the
/// source of a fork is published. A fork may pin any retained definition.
pub proof fn law_committed_session_staging(
    session_id: u128,
    head: SessionHeadView,
    definition: SessionDefinitionView,
    agents: Map<u128, AgentEntryView>,
    sessions: Map<u128, SessionEntryView>,
)
    ensures
        recovery::unpublished_session_is_valid(session_id, head, definition, agents, sessions) <==> {
            let agent = agents[definition.agent_id];
            &&& make_a_session(session_id, head, definition, agents)
            &&& agent.head.status == AgentStatus::Enabled
            &&& match head.fork_provenance {
                None => agent.head.agent_id == definition.agent_id
                    && agent.head.current_definition_revision == definition.agent_revision,
                Some(provenance) => sessions.contains_key(provenance.source_session_id@),
            }
        },
{
}

/// Session staging that was not committed may be removed whatever its documents say. Committed staging
/// with a conversation waits for that conversation; without one it is corrupt.
pub proof fn law_session_staging(
    session_id: u128,
    files: UnpublishedEntityFiles,
    documents: Option<SessionDocuments>,
    agents: Map<u128, AgentEntryView>,
    sessions: Map<u128, SessionEntryView>,
)
    ensures
        ({
            let outcome = recovery::session_candidate_outcome(
                session_id,
                files,
                documents,
                agents,
                sessions,
            );
            let committed = files.generations is Some && files.generations->0.generation is Some
                && files.generations->0.generation->0.committed_shape is Some;
            if !committed {
                outcome == Ok::<
                    Option<(SessionHeadView, SessionDefinitionView)>,
                    DurableOpenError,
                >(None)
            } else {
                match documents {
                    None => outcome == Err::<
                        Option<(SessionHeadView, SessionDefinitionView)>,
                        DurableOpenError,
                    >(DurableOpenError::StorageUnavailable),
                    Some(documents) => match documents.head {
                        Err(error) => outcome == Err::<
                            Option<(SessionHeadView, SessionDefinitionView)>,
                            DurableOpenError,
                        >(error),
                        Ok(head) => match documents.definition {
                            Err(error) => outcome == Err::<
                                Option<(SessionHeadView, SessionDefinitionView)>,
                                DurableOpenError,
                            >(error),
                            Ok(definition) => outcome
                                == if recovery::unpublished_session_is_valid(
                                session_id,
                                head@,
                                definition@,
                                agents,
                                sessions,
                            ) && files.conversation_shape is Some {
                                Ok::<
                                    Option<(SessionHeadView, SessionDefinitionView)>,
                                    DurableOpenError,
                                >(Some((head@, definition@)))
                            } else {
                                Err(DurableOpenError::DurableStateCorrupt)
                            },
                        },
                    },
                }
            }
        }),
{
}

/// The conversation of committed staging must carry the header of its own Session: version one, its
/// identity, its creation time, the pinned definition of its Agent and its first definition. Only that
/// of a fork may hold more than a header.
pub proof fn law_conversations_are_expected_to_match(
    expectation: ConversationExpectation,
    head: SessionHeadView,
    definition: SessionDefinitionView,
)
    ensures
        recovery::is_expected_conversation(expectation, head, definition) <==> {
            &&& expectation.version == 1
            &&& expectation.session_id@ == head.session_id
            &&& expectation.created_at == head.created_at
            &&& expectation.agent.agent_id@ == definition.agent_id
            &&& expectation.agent.revision@ == definition.agent_revision
            &&& expectation.definition_revision@ == definition.revision
            &&& match head.fork_provenance {
                None => expectation.shape
                    == UnpublishedConversationRecoveryShape::OrdinaryHeaderOnly,
                Some(_) => expectation.shape
                    == UnpublishedConversationRecoveryShape::ForkCanonicalLinearFile,
            }
        },
{
}

/// A conversation is accepted exactly if all five looks show the same private file, within the limit,
/// and the scan of it found what was expected. At first sight a wrong file is unavailable and a long one
/// too large; a file that changed is unavailable, whatever the scan said; otherwise the scan decides.
pub proof fn law_conversations_are_stable(
    observation: ConversationObservation,
    limits: StoreLimits,
)
    ensures
        observation.outcome(limits) is Ok <==> {
            &&& observation.classification is Ok
            &&& observation.file.initial_path is Ok
            &&& observation.file.initial_path->Ok_0.length <= limits.conversation_bytes
            &&& physical_laws::is_stable(
                observation.file,
                observation.file.initial_path->Ok_0.identity,
                observation.file.initial_path->Ok_0.length,
            )
        },
        match observation.file.initial_path {
            Err(_) => observation.outcome(limits) == Err::<(), DurableOpenError>(
                DurableOpenError::StorageUnavailable,
            ),
            Ok(initial) => if initial.kind != NodeKind::Regular || initial.mode % 4096 != 384 {
                observation.outcome(limits) == Err::<(), DurableOpenError>(
                    DurableOpenError::StorageUnavailable,
                )
            } else if initial.length > limits.conversation_bytes {
                observation.outcome(limits) == Err::<(), DurableOpenError>(
                    DurableOpenError::DurableStateTooLarge,
                )
            } else if !physical_laws::is_stable(
                observation.file,
                initial.identity,
                initial.length,
            ) {
                observation.outcome(limits) == Err::<(), DurableOpenError>(
                    DurableOpenError::StorageUnavailable,
                )
            } else {
                match observation.classification {
                    Ok(()) => observation.outcome(limits) == Ok::<(), DurableOpenError>(()),
                    Err(error) => observation.outcome(limits) == Err::<(), DurableOpenError>(
                        open_error::mapped_conversation_error(error),
                    ),
                }
            },
        },
{
}

/// An unpublished Session whose conversation was accepted is planned for removal, if it is reserved and
/// no other cleanup is planned; the catalog stays as it is.
pub proof fn law_accepted_staging_is_planned_for_removal(pending: PendingRecoveryView)
    ensures
        ({
            let candidate = pending.candidate;
            let after = recovery::with_session_cleanup(pending);
            if !candidate.session_reservations.contains_key(pending.session_id)
                || candidate.cleanup is Some {
                after == Err::<RecoveryCandidateView, DurableOpenError>(
                    DurableOpenError::DurableStateCorrupt,
                )
            } else {
                after matches Ok(after) && {
                    &&& after.agents == candidate.agents && after.sessions == candidate.sessions
                    &&& after.agent_reservations == candidate.agent_reservations
                    &&& after.session_reservations == candidate.session_reservations
                    &&& removes_entity(
                        after.cleanup,
                        EntityKind::Session,
                        pending.session_id,
                        pending.files,
                        pending.generation_cap,
                        candidate.session_reservations[pending.session_id],
                    )
                }
            }
        }),
{
}

/// Entities are recovered one after the other, each with its own documents, and the first failure ends
/// the recovery.
pub proof fn law_entities_are_recovered_in_turn(
    entities: Seq<(u128, EntityScanModel)>,
    id: u128,
    entity: EntityScanModel,
    agent_documents: Seq<VecDeque<AgentDocuments>>,
    session_documents: Seq<VecDeque<SessionDocuments>>,
    reservations: Map<u128, CleanupNodeIdentityShape>,
    agents: Map<u128, AgentEntryView>,
    cleanup: Option<DeferredCleanup>,
    generation_cap: usize,
)
    ensures
        recovery::agents_recovered(Seq::empty(), agent_documents, reservations, generation_cap)
            == Ok::<AgentRecovery, DurableOpenError>(
            AgentRecovery { agents: Map::empty(), cleanup: None },
        ),
        recovery::sessions_recovered(Seq::empty(), session_documents, agents, cleanup) == Ok::<
            SessionRecovery,
            DurableOpenError,
        >(SessionRecovery { sessions: Map::empty(), cleanup, staged: None }),
        ({
            let after = recovery::agents_recovered(
                entities.push((id, entity)),
                agent_documents,
                reservations,
                generation_cap,
            );
            match recovery::agents_recovered(
                entities,
                agent_documents,
                reservations,
                generation_cap,
            ) {
                Err(error) => after == Err::<AgentRecovery, DurableOpenError>(error),
                Ok(recovered) => after == recovered.with(
                    id,
                    entity,
                    if entities.len() < agent_documents.len() {
                        agent_documents[entities.len() as int]@
                    } else {
                        Seq::empty()
                    },
                    reservations,
                    generation_cap,
                ),
            }
        }),
        ({
            let after = recovery::sessions_recovered(
                entities.push((id, entity)),
                session_documents,
                agents,
                cleanup,
            );
            match recovery::sessions_recovered(entities, session_documents, agents, cleanup) {
                Err(error) => after == Err::<SessionRecovery, DurableOpenError>(error),
                Ok(recovered) => after == recovered.with(
                    id,
                    entity,
                    if entities.len() < session_documents.len() {
                        session_documents[entities.len() as int]@
                    } else {
                        Seq::empty()
                    },
                    agents,
                ),
            }
        }),
{
    assert(entities.push((id, entity)).drop_last() =~= entities);
}

/// A store is recovered from its Agents, then its Sessions on those Agents, then the origins of its
/// forks, then its unpublished Session. A store without one, whose forks are sound, is complete; the
/// catalog holds what was recovered, and the reservations are those of the scan.
pub proof fn law_a_store_is_recovered_in_order(
    scan: MarkedRootModel,
    agent_documents: Seq<VecDeque<AgentDocuments>>,
    session_documents: Seq<VecDeque<SessionDocuments>>,
    generation_cap: usize,
)
    ensures
        ({
            let outcome = recovery::recovery_outcome(
                scan,
                agent_documents,
                session_documents,
                generation_cap,
            );
            match recovery::agents_recovered(
                scan.agents,
                agent_documents,
                scan.agent_reservations,
                generation_cap,
            ) {
                Err(error) => outcome == Err::<RecoveryOutcome, DurableOpenError>(error),
                Ok(agents) => match recovery::sessions_recovered(
                    scan.sessions,
                    session_documents,
                    agents.agents,
                    agents.cleanup,
                ) {
                    Err(error) => outcome == Err::<RecoveryOutcome, DurableOpenError>(error),
                    Ok(sessions) => {
                        let candidate = RecoveryCandidateView {
                            agents: agents.agents,
                            sessions: sessions.sessions,
                            agent_reservations: scan.agent_reservations,
                            session_reservations: scan.session_reservations,
                            cleanup: sessions.cleanup,
                        };
                        if !fork::fork_graph_is_sound(sessions.sessions) {
                            outcome == Err::<RecoveryOutcome, DurableOpenError>(
                                DurableOpenError::DurableStateCorrupt,
                            )
                        } else {
                            match sessions.staged {
                                None => outcome == Ok::<RecoveryOutcome, DurableOpenError>(
                                    RecoveryOutcome::Complete(candidate),
                                ),
                                Some(staged) => {
                                    let pending = PendingRecoveryView {
                                        candidate,
                                        session_id: staged.id,
                                        files: staged.files,
                                        generation_cap,
                                    };
                                    match recovery::session_candidate_outcome(
                                        staged.id,
                                        staged.files,
                                        staged.documents,
                                        agents.agents,
                                        sessions.sessions,
                                    ) {
                                        Err(error) => outcome == Err::<
                                            RecoveryOutcome,
                                            DurableOpenError,
                                        >(error),
                                        Ok(None) => match recovery::with_session_cleanup(pending) {
                                            Err(error) => outcome == Err::<
                                                RecoveryOutcome,
                                                DurableOpenError,
                                            >(error),
                                            Ok(cleaned) => outcome == Ok::<
                                                RecoveryOutcome,
                                                DurableOpenError,
                                            >(RecoveryOutcome::Complete(cleaned)),
                                        },
                                        Ok(Some((head, definition))) => outcome == Ok::<
                                            RecoveryOutcome,
                                            DurableOpenError,
                                        >(
                                            RecoveryOutcome::AwaitingConversation(
                                                pending,
                                                head,
                                                definition,
                                            ),
                                        ),
                                    }
                                },
                            }
                        }
                    },
                },
            }
        }),
{
}

/// The same entities, with a generation staged behind one of them.
pub open spec fn with_staging(
    entities: Seq<(u128, EntityScanModel)>,
    i: int,
    markerless: MarkerlessGenerationFiles,
) -> Seq<(u128, EntityScanModel)> {
    entities.update(
        i,
        (
            entities[i].0,
            EntityScanModel::Published {
                committed: entities[i].1->committed,
                markerless: Some(markerless),
            },
        ),
    )
}

proof fn lemma_staged_agent(
    entities: Seq<(u128, EntityScanModel)>,
    i: int,
    markerless: MarkerlessGenerationFiles,
    documents: Seq<VecDeque<AgentDocuments>>,
    reservations: Map<u128, CleanupNodeIdentityShape>,
    generation_cap: usize,
)
    requires
        0 <= i < entities.len(),
        entities[i].1 matches EntityScanModel::Published { markerless: None, .. },
        recovery::agents_recovered(entities, documents, reservations, generation_cap) is Ok,
        recovery::agents_recovered(
            entities,
            documents,
            reservations,
            generation_cap,
        )->Ok_0.cleanup is None,
    ensures
        ({
            let id = entities[i].0;
            let before = recovery::agents_recovered(
                entities,
                documents,
                reservations,
                generation_cap,
            )->Ok_0;
            let after = recovery::agents_recovered(
                with_staging(entities, i, markerless),
                documents,
                reservations,
                generation_cap,
            );
            &&& before.agents.contains_key(id)
            &&& before.agents[id].head.status != AgentStatus::Deleted ==> {
                &&& after is Ok
                &&& after->Ok_0.agents == before.agents
                &&& removes_trailing(after->Ok_0.cleanup, EntityKind::Agent, id, markerless)
            }
        }),
    decreases entities.len(),
{
    let staged = with_staging(entities, i, markerless);
    let front = entities.drop_last();
    let end = entities.len() - 1;
    if i < end {
        assert(front[i] == entities[i]);
        assert(staged.drop_last() =~= with_staging(front, i, markerless));
        assert(staged.last() == entities.last());
        lemma_staged_agent(front, i, markerless, documents, reservations, generation_cap);
    } else {
        assert(staged.drop_last() =~= front);
    }
}

proof fn lemma_staged_session(
    entities: Seq<(u128, EntityScanModel)>,
    i: int,
    markerless: MarkerlessGenerationFiles,
    documents: Seq<VecDeque<SessionDocuments>>,
    agents: Map<u128, AgentEntryView>,
)
    requires
        0 <= i < entities.len(),
        entities[i].1 matches EntityScanModel::Published { markerless: None, .. },
        recovery::sessions_recovered(entities, documents, agents, None) is Ok,
        recovery::sessions_recovered(entities, documents, agents, None)->Ok_0.cleanup is None,
    ensures
        ({
            let id = entities[i].0;
            let before = recovery::sessions_recovered(entities, documents, agents, None)->Ok_0;
            let after = recovery::sessions_recovered(
                with_staging(entities, i, markerless),
                documents,
                agents,
                None,
            );
            &&& before.sessions.contains_key(id)
            &&& before.sessions[id].head.lifecycle != SessionLifecycle::Deleted ==> {
                &&& after is Ok
                &&& after->Ok_0.sessions == before.sessions
                &&& after->Ok_0.staged == before.staged
                &&& removes_trailing(after->Ok_0.cleanup, EntityKind::Session, id, markerless)
            }
        }),
    decreases entities.len(),
{
    let staged = with_staging(entities, i, markerless);
    let front = entities.drop_last();
    let end = entities.len() - 1;
    if i < end {
        assert(front[i] == entities[i]);
        assert(staged.drop_last() =~= with_staging(front, i, markerless));
        assert(staged.last() == entities.last());
        lemma_staged_session(front, i, markerless, documents, agents);
    } else {
        assert(staged.drop_last() =~= front);
    }
}

/// Sessions that ask for no cleanup keep the one that they were given.
proof fn lemma_sessions_keep_the_cleanup(
    entities: Seq<(u128, EntityScanModel)>,
    documents: Seq<VecDeque<SessionDocuments>>,
    agents: Map<u128, AgentEntryView>,
    cleanup: DeferredCleanup,
)
    requires
        recovery::sessions_recovered(entities, documents, agents, None) is Ok,
        recovery::sessions_recovered(entities, documents, agents, None)->Ok_0.cleanup is None,
    ensures
        recovery::sessions_recovered(entities, documents, agents, Some(cleanup)) == Ok::<
            SessionRecovery,
            DurableOpenError,
        >(
            SessionRecovery {
                cleanup: Some(cleanup),
                ..recovery::sessions_recovered(entities, documents, agents, None)->Ok_0
            },
        ),
    decreases entities.len(),
{
    if entities.len() > 0 {
        lemma_sessions_keep_the_cleanup(entities.drop_last(), documents, agents, cleanup);
    }
}

/// An interrupted update never changes what a store shows: a store that opens without a cleanup opens
/// with exactly the same Agents and Sessions where a generation was staged behind any Agent that is not
/// deleted, and that generation is planned for removal.
pub proof fn law_an_interrupted_agent_update_changes_nothing(
    scan: MarkedRootModel,
    i: int,
    markerless: MarkerlessGenerationFiles,
    agent_documents: Seq<VecDeque<AgentDocuments>>,
    session_documents: Seq<VecDeque<SessionDocuments>>,
    generation_cap: usize,
    candidate: RecoveryCandidateView,
)
    requires
        0 <= i < scan.agents.len(),
        scan.agents[i].1 matches EntityScanModel::Published { markerless: None, .. },
        recovery::recovery_outcome(scan, agent_documents, session_documents, generation_cap) == Ok::<
            RecoveryOutcome,
            DurableOpenError,
        >(RecoveryOutcome::Complete(candidate)),
        candidate.cleanup is None,
        candidate.agents[scan.agents[i].0].head.status != AgentStatus::Deleted,
    ensures
        recovery::recovery_outcome(
            MarkedRootModel { agents: with_staging(scan.agents, i, markerless), ..scan },
            agent_documents,
            session_documents,
            generation_cap,
        ) matches Ok(RecoveryOutcome::Complete(after)) && {
            &&& after.agents == candidate.agents && after.sessions == candidate.sessions
            &&& after.agent_reservations == candidate.agent_reservations
            &&& after.session_reservations == candidate.session_reservations
            &&& removes_trailing(after.cleanup, EntityKind::Agent, scan.agents[i].0, markerless)
        },
{
    let reservations = scan.agent_reservations;
    let agents = recovery::agents_recovered(
        scan.agents,
        agent_documents,
        reservations,
        generation_cap,
    )->Ok_0;
    lemma_cleanup_is_never_dropped(
        scan.sessions,
        session_documents,
        agents.agents,
        agents.cleanup,
    );
    lemma_staged_agent(
        scan.agents,
        i,
        markerless,
        agent_documents,
        reservations,
        generation_cap,
    );
    let staged = recovery::agents_recovered(
        with_staging(scan.agents, i, markerless),
        agent_documents,
        reservations,
        generation_cap,
    )->Ok_0;
    lemma_sessions_keep_the_cleanup(
        scan.sessions,
        session_documents,
        agents.agents,
        staged.cleanup->0,
    );
}

proof fn lemma_cleanup_is_never_dropped(
    entities: Seq<(u128, EntityScanModel)>,
    documents: Seq<VecDeque<SessionDocuments>>,
    agents: Map<u128, AgentEntryView>,
    cleanup: Option<DeferredCleanup>,
)
    requires
        recovery::sessions_recovered(entities, documents, agents, cleanup) is Ok,
    ensures
        cleanup is Some ==> recovery::sessions_recovered(
            entities,
            documents,
            agents,
            cleanup,
        )->Ok_0.cleanup == cleanup,
    decreases entities.len(),
{
    if entities.len() > 0 {
        lemma_cleanup_is_never_dropped(entities.drop_last(), documents, agents, cleanup);
    }
}

/// The same for Sessions: a generation staged behind any Session that is not deleted, open or archived,
/// changes nothing of what the store shows, and is planned for removal.
pub proof fn law_an_interrupted_session_update_changes_nothing(
    scan: MarkedRootModel,
    i: int,
    markerless: MarkerlessGenerationFiles,
    agent_documents: Seq<VecDeque<AgentDocuments>>,
    session_documents: Seq<VecDeque<SessionDocuments>>,
    generation_cap: usize,
    candidate: RecoveryCandidateView,
)
    requires
        0 <= i < scan.sessions.len(),
        scan.sessions[i].1 matches EntityScanModel::Published { markerless: None, .. },
        recovery::recovery_outcome(scan, agent_documents, session_documents, generation_cap) == Ok::<
            RecoveryOutcome,
            DurableOpenError,
        >(RecoveryOutcome::Complete(candidate)),
        candidate.cleanup is None,
        candidate.sessions[scan.sessions[i].0].head.lifecycle != SessionLifecycle::Deleted,
    ensures
        recovery::recovery_outcome(
            MarkedRootModel { sessions: with_staging(scan.sessions, i, markerless), ..scan },
            agent_documents,
            session_documents,
            generation_cap,
        ) matches Ok(RecoveryOutcome::Complete(after)) && {
            &&& after.agents == candidate.agents && after.sessions == candidate.sessions
            &&& after.agent_reservations == candidate.agent_reservations
            &&& after.session_reservations == candidate.session_reservations
            &&& removes_trailing(
                after.cleanup,
                EntityKind::Session,
                scan.sessions[i].0,
                markerless,
            )
        },
{
    let agents = recovery::agents_recovered(
        scan.agents,
        agent_documents,
        scan.agent_reservations,
        generation_cap,
    )->Ok_0;
    lemma_cleanup_is_never_dropped(
        scan.sessions,
        session_documents,
        agents.agents,
        agents.cleanup,
    );
    lemma_staged_session(scan.sessions, i, markerless, session_documents, agents.agents);
}

/// How a refused conversation is reported: what is too large, corrupt or unavailable is just that.
pub proof fn law_how_refused_conversations_are_reported(
    error: UnpublishedConversationRecoveryError,
)
    ensures
        open_error::mapped_conversation_error(error) == match error {
            UnpublishedConversationRecoveryError::TooLarge =>
                DurableOpenError::DurableStateTooLarge,
            UnpublishedConversationRecoveryError::Corrupt =>
                DurableOpenError::DurableStateCorrupt,
            UnpublishedConversationRecoveryError::Unavailable =>
                DurableOpenError::StorageUnavailable,
        },
{
}

} // verus!
