//! The domain half of recovery: from scanned entities and decoded documents to a catalog.
//!
//! A document that was not handed in counts as one that could not be read. Only documents of
//! committed generations are ever looked at.

use crate::agent_chain;
use crate::agent_chain::{
    recover_agent_generation_chain, validate_generation_one_agent_semantics, AgentEntryView,
    AgentGeneration, AgentGenerationView,
};
use crate::cleanup_plan;
use crate::cleanup_plan::{
    deferred_generation_cleanup, deferred_unpublished_entity_cleanup, register_deferred_cleanup,
    DeferredCleanup,
};
use crate::entity_scan::{EntityKind, EntityScanModel, ScannedEntity, UnpublishedEntityFiles};
use crate::fork;
use crate::fork::{validate_fork_provenance_references_and_cycles, SessionCatalog};
use crate::generation::StorageGeneration;
use crate::generation_scan::CommittedGenerationFiles;
use crate::head::{DurableAgentHead, DurableSessionHead, SessionHeadView};
use crate::ids::{SessionDefinitionRevision, SessionId, Timestamp};
use crate::lifecycle::{
    AgentDefinition, AgentReference, AgentStatus, SessionDefinition, SessionDefinitionView,
};
use crate::location::EntityKey;
use crate::open_error;
use crate::open_error::{
    map_unpublished_conversation_recovery_error, DurableOpenError,
    UnpublishedConversationRecoveryError,
};
use crate::physical;
use crate::physical::{
    metadata_without_following, validate_existing_regular_file, CleanupNodeIdentityShape,
    OpenFileObservation, StoreLimits,
};
use crate::root_scan;
use crate::root_scan::{EntityScan, MarkedRootModel, MarkedRootScan};
use crate::session_chain;
use crate::session_chain::{
    recover_session_generation_chain, validate_session_generation_one, AgentCatalog,
    SessionEntryView, SessionGeneration, SessionGenerationView,
};
use crate::collection_scan::Reservations;
use std::collections::{BTreeMap, VecDeque};
use vstd::prelude::*;

verus! {

/// The decoded documents of one Agent generation. The definition counts only where one was scanned.
pub struct AgentDocuments {
    pub head: Result<DurableAgentHead, DurableOpenError>,
    pub definition: Result<AgentDefinition, DurableOpenError>,
}

/// The decoded documents of one Session generation. The definition counts only where one was scanned.
pub struct SessionDocuments {
    pub head: Result<DurableSessionHead, DurableOpenError>,
    pub definition: Result<SessionDefinition, DurableOpenError>,
}

/// The documents of all entities, in the order of the scan; for each entity one item per committed
/// generation, in order.
pub struct RecoveryDocuments {
    pub agents: VecDeque<VecDeque<AgentDocuments>>,
    pub sessions: VecDeque<VecDeque<SessionDocuments>>,
}

pub open spec fn nth<T>(items: Seq<T>, i: int) -> Option<T> {
    if 0 <= i < items.len() {
        Some(items[i])
    } else {
        None
    }
}

/// What is left of a queue after `taken` items were asked of it.
pub open spec fn rest<T>(items: Seq<T>, taken: int) -> Seq<T> {
    if taken <= items.len() {
        items.skip(taken)
    } else {
        seq![]
    }
}

fn take_next<T>(queue: &mut VecDeque<T>, Ghost(items): Ghost<Seq<T>>, Ghost(taken): Ghost<int>) -> (item:
    Option<T>)
    requires
        0 <= taken,
        old(queue)@ == rest(items, taken),
    ensures
        item == nth(items, taken),
        final(queue)@ == rest(items, taken + 1),
{
    let item = queue.pop_front();
    assert(queue@ =~= rest(items, taken + 1));
    item
}

fn nested_or_empty<T>(items: Option<VecDeque<T>>) -> (result: VecDeque<T>)
    ensures
        result@ == nested(items),
{
    match items {
        Some(items) => items,
        None => VecDeque::new(),
    }
}

pub open spec fn nested<T>(items: Option<VecDeque<T>>) -> Seq<T> {
    match items {
        Some(items) => items@,
        None => seq![],
    }
}

/// What the documents of one committed Agent generation say.
pub open spec fn agent_generation_view(
    files: CommittedGenerationFiles,
    documents: Option<AgentDocuments>,
) -> AgentGenerationView {
    AgentGenerationView {
        generation: files.generation@,
        head: match documents {
            None => Err(DurableOpenError::StorageUnavailable),
            Some(documents) => match documents.head {
                Ok(head) => Ok(head@),
                Err(error) => Err(error),
            },
        },
        definition: if !files.has_definition {
            None
        } else {
            Some(
                match documents {
                    None => Err(DurableOpenError::StorageUnavailable),
                    Some(documents) => match documents.definition {
                        Ok(definition) => Ok(definition@),
                        Err(error) => Err(error),
                    },
                },
            )
        },
    }
}

pub open spec fn agent_generation_views(
    committed: Seq<CommittedGenerationFiles>,
    documents: Seq<AgentDocuments>,
) -> Seq<AgentGenerationView> {
    Seq::new(
        committed.len(),
        |i: int| agent_generation_view(committed[i], nth(documents, i)),
    )
}

pub(crate) fn attach_agent_documents(
    committed: &Vec<CommittedGenerationFiles>,
    documents: VecDeque<AgentDocuments>,
) -> (generations: Vec<AgentGeneration>)
    ensures
        agent_chain::agent_generations(generations@) == agent_generation_views(
            committed@,
            documents@,
        ),
{
    let ghost items = documents@;
    let mut queue = documents;
    let mut generations: Vec<AgentGeneration> = Vec::new();
    let mut i: usize = 0;
    assert(queue@ =~= rest(items, 0));
    while i < committed.len()
        invariant
            i <= committed@.len(),
            queue@ == rest(items, i as int),
            generations@.len() == i,
            forall|k: int|
                0 <= k < i ==> (#[trigger] generations@[k])@ == agent_generation_view(
                    committed@[k],
                    nth(items, k),
                ),
        decreases committed.len() - i,
    {
        let files: CommittedGenerationFiles = committed[i];
        let (head, definition) = match take_next(&mut queue, Ghost(items), Ghost(i as int)) {
            Some(documents) => (documents.head, documents.definition),
            None => (
                Err(DurableOpenError::StorageUnavailable),
                Err(DurableOpenError::StorageUnavailable),
            ),
        };
        let definition = if files.has_definition {
            Some(definition)
        } else {
            None
        };
        generations.push(AgentGeneration { generation: files.generation, head, definition });
        i = i + 1;
    }
    assert(agent_chain::agent_generations(generations@) =~= agent_generation_views(
        committed@,
        items,
    ));
    generations
}

/// What the documents of one committed Session generation say.
pub open spec fn session_generation_view(
    files: CommittedGenerationFiles,
    documents: Option<SessionDocuments>,
) -> SessionGenerationView {
    SessionGenerationView {
        generation: files.generation@,
        head: match documents {
            None => Err(DurableOpenError::StorageUnavailable),
            Some(documents) => match documents.head {
                Ok(head) => Ok(head@),
                Err(error) => Err(error),
            },
        },
        definition: if !files.has_definition {
            None
        } else {
            Some(
                match documents {
                    None => Err(DurableOpenError::StorageUnavailable),
                    Some(documents) => match documents.definition {
                        Ok(definition) => Ok(definition@),
                        Err(error) => Err(error),
                    },
                },
            )
        },
    }
}

pub open spec fn session_generation_views(
    committed: Seq<CommittedGenerationFiles>,
    documents: Seq<SessionDocuments>,
) -> Seq<SessionGenerationView> {
    Seq::new(
        committed.len(),
        |i: int| session_generation_view(committed[i], nth(documents, i)),
    )
}

fn attach_session_documents(
    committed: &Vec<CommittedGenerationFiles>,
    documents: VecDeque<SessionDocuments>,
) -> (generations: Vec<SessionGeneration>)
    ensures
        session_chain::session_generations(generations@) == session_generation_views(
            committed@,
            documents@,
        ),
{
    let ghost items = documents@;
    let mut queue = documents;
    let mut generations: Vec<SessionGeneration> = Vec::new();
    let mut i: usize = 0;
    assert(queue@ =~= rest(items, 0));
    while i < committed.len()
        invariant
            i <= committed@.len(),
            queue@ == rest(items, i as int),
            generations@.len() == i,
            forall|k: int|
                0 <= k < i ==> (#[trigger] generations@[k])@ == session_generation_view(
                    committed@[k],
                    nth(items, k),
                ),
        decreases committed.len() - i,
    {
        let files: CommittedGenerationFiles = committed[i];
        let (head, definition) = match take_next(&mut queue, Ghost(items), Ghost(i as int)) {
            Some(documents) => (documents.head, documents.definition),
            None => (
                Err(DurableOpenError::StorageUnavailable),
                Err(DurableOpenError::StorageUnavailable),
            ),
        };
        let definition = if files.has_definition {
            Some(definition)
        } else {
            None
        };
        generations.push(SessionGeneration { generation: files.generation, head, definition });
        i = i + 1;
    }
    assert(session_chain::session_generations(generations@) =~= session_generation_views(
        committed@,
        items,
    ));
    generations
}

/// What an unpublished Agent amounts to: a committed first generation must be a valid one.
pub open spec fn agent_candidate_outcome(
    agent_id: u128,
    files: UnpublishedEntityFiles,
    documents: Option<AgentDocuments>,
) -> Result<(), DurableOpenError> {
    if !files.is_committed() {
        Ok(())
    } else {
        match documents {
            None => Err(DurableOpenError::StorageUnavailable),
            Some(documents) => match (documents.head, documents.definition) {
                (Err(error), _) => Err(error),
                (Ok(_), Err(error)) => Err(error),
                (Ok(head), Ok(definition)) => physical::checked(
                    agent_chain::first_agent_generation_is_valid(agent_id, 1, head@, definition@),
                    DurableOpenError::DurableStateCorrupt,
                ),
            },
        }
    }
}

pub fn validate_unpublished_agent_candidate(
    agent_id: u128,
    files: &UnpublishedEntityFiles,
    documents: &Option<AgentDocuments>,
) -> (result: Result<(), DurableOpenError>)
    ensures
        result == agent_candidate_outcome(agent_id, *files, *documents),
{
    if !files.has_committed() {
        return Ok(());
    }
    let documents = match documents {
        None => return Err(DurableOpenError::StorageUnavailable),
        Some(documents) => documents,
    };
    match &documents.head {
        Err(error) => Err(*error),
        Ok(head) => match &documents.definition {
            Err(error) => Err(*error),
            Ok(definition) => validate_generation_one_agent_semantics(
                agent_id,
                StorageGeneration::first(),
                head,
                definition,
            ),
        },
    }
}

/// The Agents that were recovered so far, and the cleanup slot.
pub struct AgentRecovery {
    pub agents: Map<u128, AgentEntryView>,
    pub cleanup: Option<DeferredCleanup>,
}

impl AgentRecovery {
    /// Takes in one scanned Agent.
    pub open spec fn with(
        self,
        id: u128,
        entity: EntityScanModel,
        documents: Seq<AgentDocuments>,
        reservations: Map<u128, CleanupNodeIdentityShape>,
        generation_cap: usize,
    ) -> Result<Self, DurableOpenError> {
        let corrupt = DurableOpenError::DurableStateCorrupt;
        let key = EntityKey { kind: EntityKind::Agent, id };
        match entity {
            EntityScanModel::Published { committed, markerless } => {
                match agent_chain::agent_chain_outcome(
                    id,
                    agent_generation_views(committed, documents),
                    markerless is Some,
                ) {
                    Err(error) => Err(error),
                    Ok(entry) => if (markerless is Some && self.cleanup is Some)
                        || self.agents.contains_key(id) {
                        Err(corrupt)
                    } else {
                        Ok(
                            AgentRecovery {
                                agents: self.agents.insert(id, entry),
                                cleanup: match markerless {
                                    Some(files) => Some(
                                        DeferredCleanup::TrailingGeneration(
                                            cleanup_plan::trailing_cleanup(key, files),
                                        ),
                                    ),
                                    None => self.cleanup,
                                },
                            },
                        )
                    },
                }
            },
            EntityScanModel::Unpublished(files) => {
                match agent_candidate_outcome(id, files, nth(documents, 0)) {
                    Err(error) => Err(error),
                    Ok(()) => if !reservations.contains_key(id) || self.cleanup is Some {
                        Err(corrupt)
                    } else {
                        Ok(
                            AgentRecovery {
                                cleanup: Some(
                                    DeferredCleanup::UnpublishedEntity(
                                        cleanup_plan::entity_cleanup(
                                            key,
                                            files,
                                            generation_cap,
                                            reservations[id],
                                        ),
                                    ),
                                ),
                                ..self
                            },
                        )
                    },
                }
            },
        }
    }
}

/// The Agents that a list of scanned entities amounts to. The first failure decides.
pub open spec fn agents_recovered(
    entities: Seq<(u128, EntityScanModel)>,
    documents: Seq<VecDeque<AgentDocuments>>,
    reservations: Map<u128, CleanupNodeIdentityShape>,
    generation_cap: usize,
) -> Result<AgentRecovery, DurableOpenError>
    decreases entities.len(),
{
    if entities.len() == 0 {
        Ok(AgentRecovery { agents: Map::empty(), cleanup: None })
    } else {
        match agents_recovered(entities.drop_last(), documents, reservations, generation_cap) {
            Err(error) => Err(error),
            Ok(recovery) => recovery.with(
                entities.last().0,
                entities.last().1,
                nested(nth(documents, entities.len() - 1)),
                reservations,
                generation_cap,
            ),
        }
    }
}

proof fn lemma_agents_failure_persists(
    entities: Seq<(u128, EntityScanModel)>,
    documents: Seq<VecDeque<AgentDocuments>>,
    reservations: Map<u128, CleanupNodeIdentityShape>,
    generation_cap: usize,
    n: int,
)
    requires
        0 <= n <= entities.len(),
        agents_recovered(entities.take(n), documents, reservations, generation_cap) is Err,
    ensures
        agents_recovered(entities, documents, reservations, generation_cap) == agents_recovered(
            entities.take(n),
            documents,
            reservations,
            generation_cap,
        ),
    decreases entities.len(),
{
    if n == entities.len() {
        assert(entities.take(n) =~= entities);
    } else {
        assert(entities.drop_last().take(n) =~= entities.take(n));
        lemma_agents_failure_persists(
            entities.drop_last(),
            documents,
            reservations,
            generation_cap,
            n,
        );
    }
}

/// An executable recovery of Agents in progress.
pub struct RecoveredAgents {
    pub agents: AgentCatalog,
    pub cleanup: Option<DeferredCleanup>,
}

impl View for RecoveredAgents {
    type V = AgentRecovery;

    open spec fn view(&self) -> AgentRecovery {
        AgentRecovery {
            agents: session_chain::agent_models(self.agents@),
            cleanup: self.cleanup,
        }
    }
}

pub open spec fn agents_result(result: Result<RecoveredAgents, DurableOpenError>) -> Result<
    AgentRecovery,
    DurableOpenError,
> {
    match result {
        Ok(recovered) => Ok(recovered@),
        Err(error) => Err(error),
    }
}

fn recover_agent(
    recovered: RecoveredAgents,
    scan: EntityScan,
    documents: VecDeque<AgentDocuments>,
    reservations: &Reservations,
    generation_cap: usize,
) -> (result: Result<RecoveredAgents, DurableOpenError>)
    ensures
        agents_result(result) == recovered@.with(
            scan.id,
            scan.entity@,
            documents@,
            reservations@,
            generation_cap,
        ),
{
    let id: u128 = scan.id;
    let key = EntityKey { kind: EntityKind::Agent, id };
    let RecoveredAgents { agents, cleanup } = recovered;
    let mut agents = agents;
    let mut cleanup = cleanup;
    match scan.entity {
        ScannedEntity::Published(scan) => {
            let generations = attach_agent_documents(&scan.committed, documents);
            let chain = match recover_agent_generation_chain(generations, scan.markerless, id) {
                Err(error) => return Err(error),
                Ok(chain) => chain,
            };
            if let Some(markerless) = chain.markerless {
                match register_deferred_cleanup(
                    &mut cleanup,
                    DeferredCleanup::TrailingGeneration(
                        deferred_generation_cleanup(key, markerless),
                    ),
                ) {
                    Err(error) => return Err(error),
                    Ok(()) => {},
                }
            }
            let ghost before = agents@;
            let ghost entry = chain.entry;
            if agents.insert(id, chain.entry).is_some() {
                return Err(DurableOpenError::DurableStateCorrupt);
            }
            assert(session_chain::agent_models(agents@) =~= session_chain::agent_models(
                before,
            ).insert(id, entry@));
            Ok(RecoveredAgents { agents, cleanup })
        },
        ScannedEntity::Unpublished(files) => {
            let mut documents = documents;
            let ghost items = documents@;
            assert(documents@ =~= rest(items, 0));
            let first = take_next(&mut documents, Ghost(items), Ghost(0int));
            match validate_unpublished_agent_candidate(id, &files, &first) {
                Err(error) => return Err(error),
                Ok(()) => {},
            }
            let shape: CleanupNodeIdentityShape = match reservations.get(&id) {
                Some(shape) => *shape,
                None => return Err(DurableOpenError::DurableStateCorrupt),
            };
            match register_deferred_cleanup(
                &mut cleanup,
                DeferredCleanup::UnpublishedEntity(
                    deferred_unpublished_entity_cleanup(key, files, generation_cap, shape),
                ),
            ) {
                Err(error) => return Err(error),
                Ok(()) => {},
            }
            Ok(RecoveredAgents { agents, cleanup })
        },
    }
}

pub fn recover_agents(
    scans: Vec<EntityScan>,
    documents: VecDeque<VecDeque<AgentDocuments>>,
    reservations: &Reservations,
    generation_cap: usize,
) -> (result: Result<RecoveredAgents, DurableOpenError>)
    ensures
        agents_result(result) == agents_recovered(
            root_scan::entity_models(scans@),
            documents@,
            reservations@,
            generation_cap,
        ),
{
    let ghost entities = root_scan::entity_models(scans@);
    let ghost items = documents@;
    let mut queue = documents;
    let mut recovered = RecoveredAgents { agents: BTreeMap::new(), cleanup: None };
    proof {
        assert(entities.take(0) =~= seq![]);
        assert(queue@ =~= rest(items, 0));
        assert(recovered@.agents =~= Map::<u128, AgentEntryView>::empty());
    }
    for scan in iter: scans
        invariant
            iter.seq() == scans@,
            entities == root_scan::entity_models(scans@),
            items == documents@,
            queue@ == rest(items, iter.index() as int),
            agents_recovered(
                entities.take(iter.index() as int),
                items,
                reservations@,
                generation_cap,
            ) == Ok::<AgentRecovery, DurableOpenError>(recovered@),
    {
        let ghost n = iter.index() as int;
        proof {
            assert(entities[n] == (scan.id, scan.entity@));
            assert(entities.take(n + 1).drop_last() =~= entities.take(n));
            assert(entities.take(n + 1).last() == entities[n]);
        }
        let documents = nested_or_empty(take_next(&mut queue, Ghost(items), Ghost(n)));
        match recover_agent(recovered, scan, documents, reservations, generation_cap) {
            Ok(next) => {
                recovered = next;
            },
            Err(error) => {
                proof {
                    lemma_agents_failure_persists(
                        entities,
                        items,
                        reservations@,
                        generation_cap,
                        n + 1,
                    );
                }
                return Err(error);
            },
        }
    }
    assert(entities.take(entities.len() as int) =~= entities);
    Ok(recovered)
}

/// How the conversation of an unpublished Session must look.
#[derive(Clone, Copy, Debug, PartialEq, Eq, Structural)]
pub enum UnpublishedConversationRecoveryShape {
    OrdinaryHeaderOnly,
    ForkCanonicalLinearFile,
}

/// The version of a conversation header.
pub const CONVERSATION_HEADER_VERSION: u32 = 1;

/// The header that the conversation of an unpublished Session must carry, and its shape.
#[derive(Clone, Copy, PartialEq, Eq, Structural)]
pub struct ConversationExpectation {
    pub version: u32,
    pub session_id: SessionId,
    pub created_at: Timestamp,
    pub agent: AgentReference,
    pub definition_revision: SessionDefinitionRevision,
    pub shape: UnpublishedConversationRecoveryShape,
}

/// What a committed but unpublished Session says of its conversation.
pub open spec fn is_expected_conversation(
    expectation: ConversationExpectation,
    head: SessionHeadView,
    definition: SessionDefinitionView,
) -> bool {
    &&& expectation.version == CONVERSATION_HEADER_VERSION
    &&& expectation.session_id@ == head.session_id
    &&& expectation.created_at == head.created_at
    &&& expectation.agent.agent_id@ == definition.agent_id
    &&& expectation.agent.revision@ == definition.agent_revision
    &&& expectation.definition_revision@ == definition.revision
    &&& expectation.shape == if head.fork_provenance is Some {
        UnpublishedConversationRecoveryShape::ForkCanonicalLinearFile
    } else {
        UnpublishedConversationRecoveryShape::OrdinaryHeaderOnly
    }
}

/// The conversation as it was opened, scanned against the expectation, and looked up again.
#[derive(Clone, Copy)]
pub struct ConversationObservation {
    pub file: OpenFileObservation,
    pub classification: Result<(), UnpublishedConversationRecoveryError>,
}

impl ConversationObservation {
    /// What the conversation amounts to, the earliest observation first. A file that changed while it
    /// was scanned is unavailable, whatever the scan said.
    pub open spec fn outcome(self, limits: StoreLimits) -> Result<(), DurableOpenError> {
        match self.file.initial_path {
            Err(_) => Err(DurableOpenError::StorageUnavailable),
            Ok(initial) => if !initial.is_private_file() {
                Err(DurableOpenError::StorageUnavailable)
            } else if initial.length > limits.conversation_bytes {
                Err(DurableOpenError::DurableStateTooLarge)
            } else if !self.file.opens_unchanged(initial) || !self.file.ends_unchanged(initial) {
                Err(DurableOpenError::StorageUnavailable)
            } else {
                match self.classification {
                    Ok(()) => Ok(()),
                    Err(error) => Err(open_error::mapped_conversation_error(error)),
                }
            },
        }
    }
}

/// Accepts the conversation of an unpublished Session.
pub fn validate_unpublished_conversation(
    observation: &ConversationObservation,
    limits: StoreLimits,
) -> (result: Result<(), DurableOpenError>)
    ensures
        result == observation.outcome(limits),
{
    let initial = match metadata_without_following(observation.file.initial_path) {
        Ok(metadata) => metadata,
        Err(error) => return Err(error),
    };
    match validate_existing_regular_file(&initial, DurableOpenError::StorageUnavailable) {
        Err(error) => return Err(error),
        Ok(()) => {},
    }
    if initial.length > limits.conversation_bytes {
        return Err(DurableOpenError::DurableStateTooLarge);
    }
    match observation.file.check_opened(&initial) {
        Err(error) => return Err(error),
        Ok(()) => {},
    }
    match observation.file.check_unchanged_at_end(&initial) {
        Err(error) => return Err(error),
        Ok(()) => {},
    }
    match observation.classification {
        Ok(()) => Ok(()),
        Err(error) => Err(map_unpublished_conversation_recovery_error(error)),
    }
}

/// What the documents of a committed but unpublished Session must say, beside the rules for a first
/// generation: its Agent is enabled; unless it is a fork it pins the Agent's current definition; and
/// the source of a fork is published.
pub open spec fn unpublished_session_is_valid(
    session_id: u128,
    head: SessionHeadView,
    definition: SessionDefinitionView,
    agents: Map<u128, AgentEntryView>,
    sessions: Map<u128, SessionEntryView>,
) -> bool {
    &&& session_chain::first_session_generation_is_valid(session_id, 1, head, definition, agents)
    &&& agents.contains_key(definition.agent_id)
    &&& agents[definition.agent_id].head.status is Enabled
    &&& head.fork_provenance is None ==> definition.agent_revision
        == agents[definition.agent_id].head.current_definition_revision && definition.agent_id
        == agents[definition.agent_id].head.agent_id
    &&& head.fork_source() matches Some(source) ==> sessions.contains_key(source)
}

/// What an unpublished Session amounts to before its conversation is scanned: nothing to scan, or the
/// documents that the conversation must match.
pub open spec fn session_candidate_outcome(
    session_id: u128,
    files: UnpublishedEntityFiles,
    documents: Option<SessionDocuments>,
    agents: Map<u128, AgentEntryView>,
    sessions: Map<u128, SessionEntryView>,
) -> Result<Option<(SessionHeadView, SessionDefinitionView)>, DurableOpenError> {
    if !files.is_committed() {
        Ok(None)
    } else {
        match documents {
            None => Err(DurableOpenError::StorageUnavailable),
            Some(documents) => match (documents.head, documents.definition) {
                (Err(error), _) => Err(error),
                (Ok(_), Err(error)) => Err(error),
                (Ok(head), Ok(definition)) => if unpublished_session_is_valid(
                    session_id,
                    head@,
                    definition@,
                    agents,
                    sessions,
                ) && files.conversation_shape is Some {
                    Ok(Some((head@, definition@)))
                } else {
                    Err(DurableOpenError::DurableStateCorrupt)
                },
            },
        }
    }
}

pub open spec fn is_candidate_outcome(
    result: Result<Option<ConversationExpectation>, DurableOpenError>,
    model: Result<Option<(SessionHeadView, SessionDefinitionView)>, DurableOpenError>,
) -> bool {
    match (result, model) {
        (Err(error), Err(expected)) => error == expected,
        (Ok(None), Ok(None)) => true,
        (Ok(Some(expectation)), Ok(Some((head, definition)))) => is_expected_conversation(
            expectation,
            head,
            definition,
        ),
        _ => false,
    }
}

fn check_unpublished_session_documents(
    session_id: u128,
    head: &DurableSessionHead,
    definition: &SessionDefinition,
    agents: &AgentCatalog,
    published_sessions: &SessionCatalog,
) -> (result: Result<(), DurableOpenError>)
    ensures
        result == physical::checked(
            unpublished_session_is_valid(
                session_id,
                head@,
                definition@,
                session_chain::agent_models(agents@),
                fork::session_models(published_sessions@),
            ),
            DurableOpenError::DurableStateCorrupt,
        ),
{
    match validate_session_generation_one(
        session_id,
        StorageGeneration::first(),
        head,
        definition,
        agents,
    ) {
        Err(error) => return Err(error),
        Ok(()) => {},
    }
    let agent = match agents.get(&definition.agent.agent_id.value()) {
        Some(agent) => agent,
        None => return Err(DurableOpenError::DurableStateCorrupt),
    };
    if agent.current_head.status() != AgentStatus::Enabled || (head.fork_provenance().is_none()
        && (definition.agent.revision.get()
        != agent.current_head.current_definition_revision().get()
        || definition.agent.agent_id.value() != agent.current_head.agent_id().value())) {
        return Err(DurableOpenError::DurableStateCorrupt);
    }
    match head.fork_provenance() {
        Some(provenance) => if !published_sessions.contains_key(
            &provenance.source_session_id.value(),
        ) {
            return Err(DurableOpenError::DurableStateCorrupt);
        },
        None => {},
    }
    Ok(())
}

/// Decides whether an unpublished Session may be removed, up to its conversation.
pub fn validate_unpublished_session_candidate(
    session_id: u128,
    files: &UnpublishedEntityFiles,
    documents: &Option<SessionDocuments>,
    agents: &AgentCatalog,
    published_sessions: &SessionCatalog,
) -> (result: Result<Option<ConversationExpectation>, DurableOpenError>)
    ensures
        is_candidate_outcome(
            result,
            session_candidate_outcome(
                session_id,
                *files,
                *documents,
                session_chain::agent_models(agents@),
                fork::session_models(published_sessions@),
            ),
        ),
{
    if !files.has_committed() {
        return Ok(None);
    }
    let documents = match documents {
        None => return Err(DurableOpenError::StorageUnavailable),
        Some(documents) => documents,
    };
    let head = match &documents.head {
        Err(error) => return Err(*error),
        Ok(head) => head,
    };
    let definition = match &documents.definition {
        Err(error) => return Err(*error),
        Ok(definition) => definition,
    };
    match check_unpublished_session_documents(
        session_id,
        head,
        definition,
        agents,
        published_sessions,
    ) {
        Err(error) => return Err(error),
        Ok(()) => {},
    }
    if files.conversation_shape.is_none() {
        return Err(DurableOpenError::DurableStateCorrupt);
    }
    let shape = if head.fork_provenance().is_some() {
        UnpublishedConversationRecoveryShape::ForkCanonicalLinearFile
    } else {
        UnpublishedConversationRecoveryShape::OrdinaryHeaderOnly
    };
    Ok(
        Some(
            ConversationExpectation {
                version: CONVERSATION_HEADER_VERSION,
                session_id: head.session_id(),
                created_at: head.created_at(),
                agent: definition.agent,
                definition_revision: definition.revision,
                shape,
            },
        ),
    )
}

/// The one unpublished Session of a store, kept until every published one is known.
pub struct StagedSession {
    pub id: u128,
    pub files: UnpublishedEntityFiles,
    pub documents: Option<SessionDocuments>,
}

/// The Sessions that were recovered so far, the cleanup slot and the unpublished Session.
pub struct SessionRecovery {
    pub sessions: Map<u128, SessionEntryView>,
    pub cleanup: Option<DeferredCleanup>,
    pub staged: Option<StagedSession>,
}

impl SessionRecovery {
    /// Takes in one scanned Session. A second unpublished one is corruption.
    pub open spec fn with(
        self,
        id: u128,
        entity: EntityScanModel,
        documents: Seq<SessionDocuments>,
        agents: Map<u128, AgentEntryView>,
    ) -> Result<Self, DurableOpenError> {
        let corrupt = DurableOpenError::DurableStateCorrupt;
        let key = EntityKey { kind: EntityKind::Session, id };
        match entity {
            EntityScanModel::Published { committed, markerless } => {
                match session_chain::session_chain_outcome(
                    id,
                    session_generation_views(committed, documents),
                    agents,
                    markerless is Some,
                ) {
                    Err(error) => Err(error),
                    Ok(entry) => if (markerless is Some && self.cleanup is Some)
                        || self.sessions.contains_key(id) {
                        Err(corrupt)
                    } else {
                        Ok(
                            SessionRecovery {
                                sessions: self.sessions.insert(id, entry),
                                cleanup: match markerless {
                                    Some(files) => Some(
                                        DeferredCleanup::TrailingGeneration(
                                            cleanup_plan::trailing_cleanup(key, files),
                                        ),
                                    ),
                                    None => self.cleanup,
                                },
                                ..self
                            },
                        )
                    },
                }
            },
            EntityScanModel::Unpublished(files) => if self.staged is Some {
                Err(corrupt)
            } else {
                Ok(
                    SessionRecovery {
                        staged: Some(StagedSession { id, files, documents: nth(documents, 0) }),
                        ..self
                    },
                )
            },
        }
    }
}

/// The Sessions that a list of scanned entities amounts to. The first failure decides.
pub open spec fn sessions_recovered(
    entities: Seq<(u128, EntityScanModel)>,
    documents: Seq<VecDeque<SessionDocuments>>,
    agents: Map<u128, AgentEntryView>,
    cleanup: Option<DeferredCleanup>,
) -> Result<SessionRecovery, DurableOpenError>
    decreases entities.len(),
{
    if entities.len() == 0 {
        Ok(SessionRecovery { sessions: Map::empty(), cleanup, staged: None })
    } else {
        match sessions_recovered(entities.drop_last(), documents, agents, cleanup) {
            Err(error) => Err(error),
            Ok(recovery) => recovery.with(
                entities.last().0,
                entities.last().1,
                nested(nth(documents, entities.len() - 1)),
                agents,
            ),
        }
    }
}

proof fn lemma_sessions_failure_persists(
    entities: Seq<(u128, EntityScanModel)>,
    documents: Seq<VecDeque<SessionDocuments>>,
    agents: Map<u128, AgentEntryView>,
    cleanup: Option<DeferredCleanup>,
    n: int,
)
    requires
        0 <= n <= entities.len(),
        sessions_recovered(entities.take(n), documents, agents, cleanup) is Err,
    ensures
        sessions_recovered(entities, documents, agents, cleanup) == sessions_recovered(
            entities.take(n),
            documents,
            agents,
            cleanup,
        ),
    decreases entities.len(),
{
    if n == entities.len() {
        assert(entities.take(n) =~= entities);
    } else {
        assert(entities.drop_last().take(n) =~= entities.take(n));
        lemma_sessions_failure_persists(entities.drop_last(), documents, agents, cleanup, n);
    }
}

/// An executable recovery of Sessions in progress.
pub struct RecoveredSessions {
    pub sessions: SessionCatalog,
    pub cleanup: Option<DeferredCleanup>,
    pub staged: Option<StagedSession>,
}

impl View for RecoveredSessions {
    type V = SessionRecovery;

    open spec fn view(&self) -> SessionRecovery {
        SessionRecovery {
            sessions: fork::session_models(self.sessions@),
            cleanup: self.cleanup,
            staged: self.staged,
        }
    }
}

pub open spec fn sessions_result(result: Result<RecoveredSessions, DurableOpenError>) -> Result<
    SessionRecovery,
    DurableOpenError,
> {
    match result {
        Ok(recovered) => Ok(recovered@),
        Err(error) => Err(error),
    }
}

fn recover_session(
    recovered: RecoveredSessions,
    scan: EntityScan,
    documents: VecDeque<SessionDocuments>,
    agents: &AgentCatalog,
) -> (result: Result<RecoveredSessions, DurableOpenError>)
    ensures
        sessions_result(result) == recovered@.with(
            scan.id,
            scan.entity@,
            documents@,
            session_chain::agent_models(agents@),
        ),
{
    let id: u128 = scan.id;
    let key = EntityKey { kind: EntityKind::Session, id };
    let RecoveredSessions { sessions, cleanup, staged } = recovered;
    let mut sessions = sessions;
    let mut cleanup = cleanup;
    match scan.entity {
        ScannedEntity::Published(scan) => {
            let generations = attach_session_documents(&scan.committed, documents);
            let chain = match recover_session_generation_chain(
                generations,
                scan.markerless,
                id,
                agents,
            ) {
                Err(error) => return Err(error),
                Ok(chain) => chain,
            };
            if let Some(markerless) = chain.markerless {
                match register_deferred_cleanup(
                    &mut cleanup,
                    DeferredCleanup::TrailingGeneration(
                        deferred_generation_cleanup(key, markerless),
                    ),
                ) {
                    Err(error) => return Err(error),
                    Ok(()) => {},
                }
            }
            let ghost before = sessions@;
            let ghost entry = chain.entry;
            if sessions.insert(id, chain.entry).is_some() {
                return Err(DurableOpenError::DurableStateCorrupt);
            }
            assert(fork::session_models(sessions@) =~= fork::session_models(before).insert(
                id,
                entry@,
            ));
            Ok(RecoveredSessions { sessions, cleanup, staged })
        },
        ScannedEntity::Unpublished(files) => {
            if staged.is_some() {
                return Err(DurableOpenError::DurableStateCorrupt);
            }
            let mut documents = documents;
            let ghost items = documents@;
            assert(documents@ =~= rest(items, 0));
            let first = take_next(&mut documents, Ghost(items), Ghost(0int));
            Ok(
                RecoveredSessions {
                    sessions,
                    cleanup,
                    staged: Some(StagedSession { id, files, documents: first }),
                },
            )
        },
    }
}

fn recover_published_sessions(
    scans: Vec<EntityScan>,
    documents: VecDeque<VecDeque<SessionDocuments>>,
    agents: &AgentCatalog,
    cleanup: Option<DeferredCleanup>,
) -> (result: Result<RecoveredSessions, DurableOpenError>)
    ensures
        sessions_result(result) == sessions_recovered(
            root_scan::entity_models(scans@),
            documents@,
            session_chain::agent_models(agents@),
            cleanup,
        ),
{
    let ghost entities = root_scan::entity_models(scans@);
    let ghost models = session_chain::agent_models(agents@);
    let ghost items = documents@;
    let mut queue = documents;
    let mut recovered = RecoveredSessions { sessions: BTreeMap::new(), cleanup, staged: None };
    proof {
        assert(entities.take(0) =~= seq![]);
        assert(queue@ =~= rest(items, 0));
        assert(recovered@.sessions =~= Map::<u128, SessionEntryView>::empty());
    }
    for scan in iter: scans
        invariant
            iter.seq() == scans@,
            entities == root_scan::entity_models(scans@),
            models == session_chain::agent_models(agents@),
            items == documents@,
            queue@ == rest(items, iter.index() as int),
            sessions_recovered(entities.take(iter.index() as int), items, models, cleanup) == Ok::<
                SessionRecovery,
                DurableOpenError,
            >(recovered@),
    {
        let ghost n = iter.index() as int;
        proof {
            assert(entities[n] == (scan.id, scan.entity@));
            assert(entities.take(n + 1).drop_last() =~= entities.take(n));
            assert(entities.take(n + 1).last() == entities[n]);
        }
        let documents = nested_or_empty(take_next(&mut queue, Ghost(items), Ghost(n)));
        match recover_session(recovered, scan, documents, agents) {
            Ok(next) => {
                recovered = next;
            },
            Err(error) => {
                proof {
                    lemma_sessions_failure_persists(entities, items, models, cleanup, n + 1);
                }
                return Err(error);
            },
        }
    }
    assert(entities.take(entities.len() as int) =~= entities);
    Ok(recovered)
}

/// The recovered, immutable content of a store.
pub struct RecoveredCatalog {
    pub agents: AgentCatalog,
    pub sessions: SessionCatalog,
}

/// A validated recovery result. The catalog may not be shown before its cleanup is done.
pub struct RecoveryCandidate {
    pub catalog: RecoveredCatalog,
    pub agent_reservations: Reservations,
    pub session_reservations: Reservations,
    pub cleanup: Option<DeferredCleanup>,
}

pub struct RecoveryCandidateView {
    pub agents: Map<u128, AgentEntryView>,
    pub sessions: Map<u128, SessionEntryView>,
    pub agent_reservations: Map<u128, CleanupNodeIdentityShape>,
    pub session_reservations: Map<u128, CleanupNodeIdentityShape>,
    pub cleanup: Option<DeferredCleanup>,
}

impl View for RecoveryCandidate {
    type V = RecoveryCandidateView;

    open spec fn view(&self) -> RecoveryCandidateView {
        RecoveryCandidateView {
            agents: session_chain::agent_models(self.catalog.agents@),
            sessions: fork::session_models(self.catalog.sessions@),
            agent_reservations: self.agent_reservations@,
            session_reservations: self.session_reservations@,
            cleanup: self.cleanup,
        }
    }
}

/// A recovery that waits for the conversation of its unpublished Session.
pub struct PendingRecovery {
    candidate: RecoveryCandidate,
    session_id: u128,
    files: UnpublishedEntityFiles,
    generation_cap: usize,
    expectation: ConversationExpectation,
}

pub struct PendingRecoveryView {
    pub candidate: RecoveryCandidateView,
    pub session_id: u128,
    pub files: UnpublishedEntityFiles,
    pub generation_cap: usize,
}

impl View for PendingRecovery {
    type V = PendingRecoveryView;

    closed spec fn view(&self) -> PendingRecoveryView {
        PendingRecoveryView {
            candidate: self.candidate@,
            session_id: self.session_id,
            files: self.files,
            generation_cap: self.generation_cap,
        }
    }
}

/// How far recovery came without a conversation.
pub enum RecoveryProgress {
    Complete(RecoveryCandidate),
    AwaitingConversation(PendingRecovery),
}

/// The model of a recovery: complete, or waiting for the conversation that must match two documents.
pub enum RecoveryOutcome {
    Complete(RecoveryCandidateView),
    AwaitingConversation(PendingRecoveryView, SessionHeadView, SessionDefinitionView),
}

/// The candidate with the removal of an unpublished Session in its slot.
pub open spec fn with_session_cleanup(pending: PendingRecoveryView) -> Result<
    RecoveryCandidateView,
    DurableOpenError,
> {
    let candidate = pending.candidate;
    let key = EntityKey { kind: EntityKind::Session, id: pending.session_id };
    if !candidate.session_reservations.contains_key(pending.session_id) || candidate.cleanup
        is Some {
        Err(DurableOpenError::DurableStateCorrupt)
    } else {
        Ok(
            RecoveryCandidateView {
                cleanup: Some(
                    DeferredCleanup::UnpublishedEntity(
                        cleanup_plan::entity_cleanup(
                            key,
                            pending.files,
                            pending.generation_cap,
                            candidate.session_reservations[pending.session_id],
                        ),
                    ),
                ),
                ..candidate
            },
        )
    }
}

fn register_session_cleanup(
    candidate: RecoveryCandidate,
    session_id: u128,
    files: UnpublishedEntityFiles,
    generation_cap: usize,
) -> (result: Result<RecoveryCandidate, DurableOpenError>)
    ensures
        candidate_result(result) == with_session_cleanup(
            PendingRecoveryView { candidate: candidate@, session_id, files, generation_cap },
        ),
{
    let RecoveryCandidate { catalog, agent_reservations, session_reservations, cleanup } =
        candidate;
    let mut cleanup = cleanup;
    let shape: CleanupNodeIdentityShape = match session_reservations.get(&session_id) {
        Some(shape) => *shape,
        None => return Err(DurableOpenError::DurableStateCorrupt),
    };
    let key = EntityKey { kind: EntityKind::Session, id: session_id };
    match register_deferred_cleanup(
        &mut cleanup,
        DeferredCleanup::UnpublishedEntity(
            deferred_unpublished_entity_cleanup(key, files, generation_cap, shape),
        ),
    ) {
        Err(error) => return Err(error),
        Ok(()) => {},
    }
    Ok(RecoveryCandidate { catalog, agent_reservations, session_reservations, cleanup })
}

pub open spec fn candidate_result(result: Result<RecoveryCandidate, DurableOpenError>) -> Result<
    RecoveryCandidateView,
    DurableOpenError,
> {
    match result {
        Ok(candidate) => Ok(candidate@),
        Err(error) => Err(error),
    }
}

impl PendingRecovery {
    pub closed spec fn spec_expectation(&self) -> ConversationExpectation {
        self.expectation
    }

    /// What the conversation of the unpublished Session must match.
    pub fn expectation(&self) -> (expectation: ConversationExpectation)
        ensures
            expectation == self.spec_expectation(),
    {
        self.expectation
    }

    /// The Session whose conversation is awaited.
    pub fn session_id(&self) -> (id: u128)
        ensures
            id == self@.session_id,
    {
        self.session_id
    }

    /// Goes on with the conversation of the unpublished Session.
    pub fn resume(self, observation: &ConversationObservation, limits: StoreLimits) -> (result:
        Result<RecoveryCandidate, DurableOpenError>)
        ensures
            candidate_result(result) == match observation.outcome(limits) {
                Err(error) => Err(error),
                Ok(()) => with_session_cleanup(self@),
            },
    {
        match validate_unpublished_conversation(observation, limits) {
            Err(error) => Err(error),
            Ok(()) => register_session_cleanup(
                self.candidate,
                self.session_id,
                self.files,
                self.generation_cap,
            ),
        }
    }
}

/// What the scanned Sessions and their documents amount to, once the Agents are known.
pub open spec fn sessions_outcome(
    agents: AgentRecovery,
    entities: Seq<(u128, EntityScanModel)>,
    documents: Seq<VecDeque<SessionDocuments>>,
    agent_reservations: Map<u128, CleanupNodeIdentityShape>,
    session_reservations: Map<u128, CleanupNodeIdentityShape>,
    generation_cap: usize,
) -> Result<RecoveryOutcome, DurableOpenError> {
    match sessions_recovered(entities, documents, agents.agents, agents.cleanup) {
        Err(error) => Err(error),
        Ok(sessions) => {
            let candidate = RecoveryCandidateView {
                agents: agents.agents,
                sessions: sessions.sessions,
                agent_reservations,
                session_reservations,
                cleanup: sessions.cleanup,
            };
            if !fork::fork_graph_is_sound(sessions.sessions) {
                Err(DurableOpenError::DurableStateCorrupt)
            } else {
                match sessions.staged {
                    None => Ok(RecoveryOutcome::Complete(candidate)),
                    Some(staged) => staged_outcome(candidate, staged, generation_cap),
                }
            }
        },
    }
}

/// What the unpublished Session of a store amounts to.
pub open spec fn staged_outcome(
    candidate: RecoveryCandidateView,
    staged: StagedSession,
    generation_cap: usize,
) -> Result<RecoveryOutcome, DurableOpenError> {
    let pending = PendingRecoveryView {
        candidate,
        session_id: staged.id,
        files: staged.files,
        generation_cap,
    };
    match session_candidate_outcome(
        staged.id,
        staged.files,
        staged.documents,
        candidate.agents,
        candidate.sessions,
    ) {
        Err(error) => Err(error),
        Ok(None) => match with_session_cleanup(pending) {
            Err(error) => Err(error),
            Ok(candidate) => Ok(RecoveryOutcome::Complete(candidate)),
        },
        Ok(Some((head, definition))) => Ok(
            RecoveryOutcome::AwaitingConversation(pending, head, definition),
        ),
    }
}

/// What a scanned store and its documents amount to.
pub open spec fn recovery_outcome(
    scan: MarkedRootModel,
    agent_documents: Seq<VecDeque<AgentDocuments>>,
    session_documents: Seq<VecDeque<SessionDocuments>>,
    generation_cap: usize,
) -> Result<RecoveryOutcome, DurableOpenError> {
    match agents_recovered(
        scan.agents,
        agent_documents,
        scan.agent_reservations,
        generation_cap,
    ) {
        Err(error) => Err(error),
        Ok(agents) => sessions_outcome(
            agents,
            scan.sessions,
            session_documents,
            scan.agent_reservations,
            scan.session_reservations,
            generation_cap,
        ),
    }
}

pub open spec fn is_recovery_outcome(
    result: Result<RecoveryProgress, DurableOpenError>,
    model: Result<RecoveryOutcome, DurableOpenError>,
) -> bool {
    match (result, model) {
        (Err(error), Err(expected)) => error == expected,
        (Ok(RecoveryProgress::Complete(candidate)), Ok(RecoveryOutcome::Complete(expected))) =>
            candidate@ == expected,
        (
            Ok(RecoveryProgress::AwaitingConversation(pending)),
            Ok(RecoveryOutcome::AwaitingConversation(expected, head, definition)),
        ) => pending@ == expected && is_expected_conversation(
            pending.spec_expectation(),
            head,
            definition,
        ),
        _ => false,
    }
}

/// Recovers committed Session chains, checks their origins, and judges the unpublished one.
pub fn recover_sessions(
    scans: Vec<EntityScan>,
    documents: VecDeque<VecDeque<SessionDocuments>>,
    recovered: RecoveredAgents,
    agent_reservations: Reservations,
    session_reservations: Reservations,
    generation_cap: usize,
) -> (result: Result<RecoveryProgress, DurableOpenError>)
    ensures
        is_recovery_outcome(
            result,
            sessions_outcome(
                recovered@,
                root_scan::entity_models(scans@),
                documents@,
                agent_reservations@,
                session_reservations@,
                generation_cap,
            ),
        ),
{
    let RecoveredAgents { agents, cleanup } = recovered;
    let RecoveredSessions { sessions, cleanup, staged } = match recover_published_sessions(
        scans,
        documents,
        &agents,
        cleanup,
    ) {
        Err(error) => return Err(error),
        Ok(recovered) => recovered,
    };
    match validate_fork_provenance_references_and_cycles(&sessions) {
        Err(error) => return Err(error),
        Ok(()) => {},
    }
    let staged = match staged {
        None => return Ok(
            RecoveryProgress::Complete(
                RecoveryCandidate {
                    catalog: RecoveredCatalog { agents, sessions },
                    agent_reservations,
                    session_reservations,
                    cleanup,
                },
            ),
        ),
        Some(staged) => staged,
    };
    let judged = match validate_unpublished_session_candidate(
        staged.id,
        &staged.files,
        &staged.documents,
        &agents,
        &sessions,
    ) {
        Err(error) => return Err(error),
        Ok(judged) => judged,
    };
    let candidate = RecoveryCandidate {
        catalog: RecoveredCatalog { agents, sessions },
        agent_reservations,
        session_reservations,
        cleanup,
    };
    match judged {
        None => match register_session_cleanup(
            candidate,
            staged.id,
            staged.files,
            generation_cap,
        ) {
            Err(error) => Err(error),
            Ok(candidate) => Ok(RecoveryProgress::Complete(candidate)),
        },
        Some(expectation) => Ok(
            RecoveryProgress::AwaitingConversation(
                PendingRecovery {
                    candidate,
                    session_id: staged.id,
                    files: staged.files,
                    generation_cap,
                    expectation,
                },
            ),
        ),
    }
}

/// The domain half of recovery over a completed physical scan.
pub fn recover_marked_root(
    scan: MarkedRootScan,
    documents: RecoveryDocuments,
    generation_cap: usize,
) -> (result: Result<RecoveryProgress, DurableOpenError>)
    ensures
        is_recovery_outcome(
            result,
            recovery_outcome(
                scan@,
                documents.agents@,
                documents.sessions@,
                generation_cap,
            ),
        ),
{
    let ghost model = scan@;
    let MarkedRootScan { agent_reservations, session_reservations, agents, sessions } = scan;
    let recovered = match recover_agents(
        agents,
        documents.agents,
        &agent_reservations,
        generation_cap,
    ) {
        Err(error) => return Err(error),
        Ok(recovered) => recovered,
    };
    recover_sessions(
        sessions,
        documents.sessions,
        recovered,
        agent_reservations,
        session_reservations,
        generation_cap,
    )
}

proof fn lemma_agents_are_published(
    entities: Seq<(u128, EntityScanModel)>,
    documents: Seq<VecDeque<AgentDocuments>>,
    reservations: Map<u128, CleanupNodeIdentityShape>,
    generation_cap: usize,
)
    requires
        agents_recovered(entities, documents, reservations, generation_cap) is Ok,
    ensures
        ({
            let agents = agents_recovered(
                entities,
                documents,
                reservations,
                generation_cap,
            )->Ok_0.agents;
            forall|id: u128| #[trigger]
                agents.contains_key(id) <==> exists|i: int|
                    0 <= i < entities.len() && (#[trigger] entities[i]).0 == id && entities[i].1
                        is Published
        }),
    decreases entities.len(),
{
    if entities.len() > 0 {
        let front = entities.drop_last();
        lemma_agents_are_published(front, documents, reservations, generation_cap);
        let before = agents_recovered(front, documents, reservations, generation_cap)->Ok_0.agents;
        let after = agents_recovered(
            entities,
            documents,
            reservations,
            generation_cap,
        )->Ok_0.agents;
        assert forall|id: u128| #[trigger] after.contains_key(id) <==> exists|i: int|
            0 <= i < entities.len() && (#[trigger] entities[i]).0 == id && entities[i].1
                is Published by {
            if after.contains_key(id) {
                if before.contains_key(id) {
                    let k = choose|k: int|
                        0 <= k < front.len() && (#[trigger] front[k]).0 == id && front[k].1
                            is Published;
                    assert(entities[k] == front[k]);
                } else {
                    assert(entities[entities.len() - 1].0 == id);
                }
            }
            if exists|i: int|
                0 <= i < entities.len() && (#[trigger] entities[i]).0 == id && entities[i].1
                    is Published {
                let k = choose|k: int|
                    0 <= k < entities.len() && (#[trigger] entities[k]).0 == id && entities[k].1
                        is Published;
                if k < front.len() {
                    assert(front[k] == entities[k]);
                    assert(before.contains_key(id));
                }
            }
        }
    }
}

proof fn lemma_sessions_are_published(
    entities: Seq<(u128, EntityScanModel)>,
    documents: Seq<VecDeque<SessionDocuments>>,
    agents: Map<u128, AgentEntryView>,
    cleanup: Option<DeferredCleanup>,
)
    requires
        sessions_recovered(entities, documents, agents, cleanup) is Ok,
    ensures
        ({
            let sessions = sessions_recovered(entities, documents, agents, cleanup)->Ok_0.sessions;
            &&& forall|id: u128| #[trigger]
                sessions.contains_key(id) <==> exists|i: int|
                    0 <= i < entities.len() && (#[trigger] entities[i]).0 == id && entities[i].1
                        is Published
            &&& forall|id: u128| #[trigger]
                sessions.contains_key(id) ==> {
                    &&& sessions[id].head.session_id == id
                    &&& sessions[id].definition.session_id == id
                    &&& session_chain::retains_definition(
                        agents,
                        sessions[id].definition.agent_id,
                        sessions[id].definition.agent_revision,
                    )
                }
        }),
    decreases entities.len(),
{
    if entities.len() > 0 {
        let front = entities.drop_last();
        lemma_sessions_are_published(front, documents, agents, cleanup);
        let before = sessions_recovered(front, documents, agents, cleanup)->Ok_0.sessions;
        let after = sessions_recovered(entities, documents, agents, cleanup)->Ok_0.sessions;
        match entities.last().1 {
            EntityScanModel::Published { committed, markerless } => {
                let views = session_generation_views(
                    committed,
                    nested(nth(documents, entities.len() - 1)),
                );
                session_chain::law_recovered_session(entities.last().0, views, agents);
                assert(views.last() == views[views.len() - 1]);
            },
            EntityScanModel::Unpublished(_) => {},
        }
        assert forall|id: u128| #[trigger] after.contains_key(id) <==> exists|i: int|
            0 <= i < entities.len() && (#[trigger] entities[i]).0 == id && entities[i].1
                is Published by {
            if after.contains_key(id) {
                if before.contains_key(id) {
                    let k = choose|k: int|
                        0 <= k < front.len() && (#[trigger] front[k]).0 == id && front[k].1
                            is Published;
                    assert(entities[k] == front[k]);
                } else {
                    assert(entities[entities.len() - 1].0 == id);
                }
            }
            if exists|i: int|
                0 <= i < entities.len() && (#[trigger] entities[i]).0 == id && entities[i].1
                    is Published {
                let k = choose|k: int|
                    0 <= k < entities.len() && (#[trigger] entities[k]).0 == id && entities[k].1
                        is Published;
                if k < front.len() {
                    assert(front[k] == entities[k]);
                    assert(before.contains_key(id));
                }
            }
        }
        assert forall|id: u128| #[trigger] after.contains_key(id) implies {
            &&& after[id].head.session_id == id
            &&& after[id].definition.session_id == id
            &&& session_chain::retains_definition(
                agents,
                after[id].definition.agent_id,
                after[id].definition.agent_revision,
            )
        } by {
            if before.contains_key(id) && id != entities.last().0 {
                assert(after[id] == before[id]);
            } else if before.contains_key(id) {
                assert(after[id] == before[id]);
            }
        }
    }
}

/// How many removals a slot holds.
pub open spec fn held<T>(slot: Option<T>) -> nat {
    if slot is Some {
        1
    } else {
        0
    }
}

/// Every Agent that asks for a removal fills the one slot.
proof fn lemma_agents_fill_the_slot(
    entities: Seq<(u128, EntityScanModel)>,
    documents: Seq<VecDeque<AgentDocuments>>,
    reservations: Map<u128, CleanupNodeIdentityShape>,
    generation_cap: usize,
)
    requires
        agents_recovered(entities, documents, reservations, generation_cap) is Ok,
    ensures
        held(
            agents_recovered(entities, documents, reservations, generation_cap)->Ok_0.cleanup,
        ) == root_scan::candidate_count(entities),
    decreases entities.len(),
{
    if entities.len() > 0 {
        lemma_agents_fill_the_slot(
            entities.drop_last(),
            documents,
            reservations,
            generation_cap,
        );
    }
}

/// Every Session that asks for a removal fills the one slot, or is the one that is still staged.
proof fn lemma_sessions_fill_the_slot(
    entities: Seq<(u128, EntityScanModel)>,
    documents: Seq<VecDeque<SessionDocuments>>,
    agents: Map<u128, AgentEntryView>,
    cleanup: Option<DeferredCleanup>,
)
    requires
        sessions_recovered(entities, documents, agents, cleanup) is Ok,
    ensures
        ({
            let recovered = sessions_recovered(entities, documents, agents, cleanup)->Ok_0;
            held(recovered.cleanup) + held(recovered.staged) == held(cleanup)
                + root_scan::candidate_count(entities)
        }),
    decreases entities.len(),
{
    if entities.len() > 0 {
        lemma_sessions_fill_the_slot(entities.drop_last(), documents, agents, cleanup);
    }
}

/// The candidate of a recovery, whether or not it still waits for a conversation.
pub open spec fn outcome_candidate(outcome: RecoveryOutcome) -> RecoveryCandidateView {
    match outcome {
        RecoveryOutcome::Complete(candidate) => candidate,
        RecoveryOutcome::AwaitingConversation(pending, _, _) => pending.candidate,
    }
}

/// A recovered catalog holds exactly the published entities, so that staging is never visible. Every
/// Session in it pins a retained Agent definition, every fork source is in it, and no Session
/// descends from itself. A removal is kept exactly where one entity asks for one; a recovery that
/// still waits for a conversation keeps it once the conversation is accepted.
pub proof fn law_recovered_catalog_is_closed(
    scan: MarkedRootModel,
    agent_documents: Seq<VecDeque<AgentDocuments>>,
    session_documents: Seq<VecDeque<SessionDocuments>>,
    generation_cap: usize,
)
    requires
        recovery_outcome(scan, agent_documents, session_documents, generation_cap) is Ok,
    ensures
        ({
            let candidate = outcome_candidate(
                recovery_outcome(scan, agent_documents, session_documents, generation_cap)->Ok_0,
            );
            &&& forall|id: u128| #[trigger]
                candidate.agents.contains_key(id) <==> exists|i: int|
                    0 <= i < scan.agents.len() && (#[trigger] scan.agents[i]).0 == id
                        && scan.agents[i].1 is Published
            &&& forall|id: u128| #[trigger]
                candidate.sessions.contains_key(id) <==> exists|i: int|
                    0 <= i < scan.sessions.len() && (#[trigger] scan.sessions[i]).0 == id
                        && scan.sessions[i].1 is Published
            &&& forall|id: u128| #[trigger]
                candidate.sessions.contains_key(id) ==> {
                    &&& candidate.sessions[id].head.session_id == id
                    &&& session_chain::retains_definition(
                        candidate.agents,
                        candidate.sessions[id].definition.agent_id,
                        candidate.sessions[id].definition.agent_revision,
                    )
                }
            &&& fork::fork_graph_is_sound(candidate.sessions)
            &&& candidate.agent_reservations == scan.agent_reservations
            &&& candidate.session_reservations == scan.session_reservations
        }),
        ({
            let count = root_scan::candidate_count(scan.agents) + root_scan::candidate_count(
                scan.sessions,
            );
            match recovery_outcome(
                scan,
                agent_documents,
                session_documents,
                generation_cap,
            )->Ok_0 {
                RecoveryOutcome::Complete(candidate) => held(candidate.cleanup) == count,
                RecoveryOutcome::AwaitingConversation(pending, _, _) => {
                    &&& held(pending.candidate.cleanup) + 1 == count
                    &&& with_session_cleanup(pending) matches Ok(candidate) ==> held(
                        candidate.cleanup,
                    ) == count
                },
            }
        }),
{
    let agents = agents_recovered(
        scan.agents,
        agent_documents,
        scan.agent_reservations,
        generation_cap,
    )->Ok_0;
    lemma_agents_are_published(
        scan.agents,
        agent_documents,
        scan.agent_reservations,
        generation_cap,
    );
    lemma_sessions_are_published(
        scan.sessions,
        session_documents,
        agents.agents,
        agents.cleanup,
    );
    lemma_agents_fill_the_slot(
        scan.agents,
        agent_documents,
        scan.agent_reservations,
        generation_cap,
    );
    lemma_sessions_fill_the_slot(
        scan.sessions,
        session_documents,
        agents.agents,
        agents.cleanup,
    );
}

} // verus!
