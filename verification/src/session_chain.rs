//! Recovering a Session from its chain of committed generations.
//!
//! Every Session pins an exact Agent definition, so Agents are recovered first: a pin is checked
//! against the retained definitions of an Agent, not against its current definition or status.

use crate::agent_chain::{AgentEntryView, DurableAgentCatalogEntry};
use crate::generation::StorageGeneration;
use crate::generation_scan::MarkerlessGenerationFiles;
use crate::head::{DurableSessionHead, SessionHeadView};
use crate::lifecycle;
use crate::lifecycle::{
    is_legal_session_lifecycle_transition,
    session_definitions_have_same_canonical_execution_content,
    session_metadata_has_same_canonical_content, workspace_revision_transition_is_valid,
    AgentReference, SessionDefinition, SessionDefinitionView, SessionForkProvenance,
    SessionLifecycle,
};
use crate::open_error::DurableOpenError;
use crate::physical;
use std::collections::BTreeMap;
use std::sync::Arc;
use vstd::prelude::*;

verus! {

/// The recovered Agents, by identity.
pub type AgentCatalog = BTreeMap<u128, DurableAgentCatalogEntry>;

pub open spec fn agent_models(agents: Map<u128, DurableAgentCatalogEntry>) -> Map<
    u128,
    AgentEntryView,
> {
    agents.map_values(|entry: DurableAgentCatalogEntry| entry@)
}

/// Whether a definition of an Agent is retained.
pub open spec fn retains_definition(
    agents: Map<u128, AgentEntryView>,
    agent_id: u128,
    revision: nat,
) -> bool {
    agents.contains_key(agent_id) && agents[agent_id].index.contains_key(revision as u64)
}

fn is_retained(agents: &AgentCatalog, agent: &AgentReference) -> (retained: bool)
    ensures
        retained == retains_definition(
            agent_models(agents@),
            agent.agent_id@,
            agent.revision@,
        ),
{
    match agents.get(&agent.agent_id.value()) {
        Some(entry) => entry.definition_index.contains_key(&agent.revision.get()),
        None => false,
    }
}

/// The decoded documents of one committed Session generation.
pub struct SessionGeneration {
    pub generation: StorageGeneration,
    pub head: Result<DurableSessionHead, DurableOpenError>,
    pub definition: Option<Result<SessionDefinition, DurableOpenError>>,
}

/// What the documents of one generation say.
pub struct SessionGenerationView {
    pub generation: nat,
    pub head: Result<SessionHeadView, DurableOpenError>,
    pub definition: Option<Result<SessionDefinitionView, DurableOpenError>>,
}

impl View for SessionGeneration {
    type V = SessionGenerationView;

    open spec fn view(&self) -> SessionGenerationView {
        SessionGenerationView {
            generation: self.generation@,
            head: match self.head {
                Ok(head) => Ok(head@),
                Err(error) => Err(error),
            },
            definition: match self.definition {
                None => None,
                Some(Ok(definition)) => Some(Ok(definition@)),
                Some(Err(error)) => Some(Err(error)),
            },
        }
    }
}

pub open spec fn session_generations(generations: Seq<SessionGeneration>) -> Seq<
    SessionGenerationView,
> {
    generations.map_values(|generation: SessionGeneration| generation@)
}

/// One recovered Session's current facts. A stored Session has no separately addressable history, so
/// none is kept.
pub struct DurableSessionCatalogEntry {
    pub current_head: Arc<DurableSessionHead>,
    pub current_definition: Arc<SessionDefinition>,
}

pub struct SessionEntryView {
    pub head: SessionHeadView,
    pub definition: SessionDefinitionView,
}

impl View for DurableSessionCatalogEntry {
    type V = SessionEntryView;

    open spec fn view(&self) -> SessionEntryView {
        SessionEntryView {
            head: (*self.current_head)@,
            definition: (*self.current_definition)@,
        }
    }
}

/// A recovered Session and the staging behind its committed generations.
pub struct RecoveredSessionGenerationChain {
    pub entry: DurableSessionCatalogEntry,
    pub markerless: Option<MarkerlessGenerationFiles>,
}

/// What the first generation of a Session must say.
pub open spec fn first_session_generation_is_valid(
    session_id: u128,
    generation: nat,
    head: SessionHeadView,
    definition: SessionDefinitionView,
    agents: Map<u128, AgentEntryView>,
) -> bool {
    &&& head.session_id == session_id
    &&& definition.session_id == session_id
    &&& head.storage_generation == generation
    &&& generation == 1
    &&& head.previous_storage_generation is None
    &&& head.current_definition_revision == 1
    &&& head.current_definition_storage_generation == 1
    &&& definition.revision == 1
    &&& definition.workspace.revision == 1
    &&& head.metadata.revision == 1
    &&& head.lifecycle is Open
    &&& head.fork_provenance is Some ==> head.metadata.name is None && head.metadata.description
        is None
    &&& head.created_at == definition.created_at
    &&& head.created_at == head.metadata.updated_at
    &&& retains_definition(agents, definition.agent_id, definition.agent_revision)
}

pub fn validate_session_generation_one(
    path_session_id: u128,
    path_generation: StorageGeneration,
    head: &DurableSessionHead,
    definition: &SessionDefinition,
    agents: &AgentCatalog,
) -> (result: Result<(), DurableOpenError>)
    ensures
        result == physical::checked(
            first_session_generation_is_valid(
                path_session_id,
                path_generation@,
                head@,
                definition@,
                agent_models(agents@),
            ),
            DurableOpenError::DurableStateCorrupt,
        ),
{
    let ordinal: u32 = path_generation.get();
    let retained = is_retained(agents, &definition.agent);
    let named_fork = head.fork_provenance().is_some() && (head.metadata().name.is_some()
        || head.metadata().description.is_some());
    if head.session_id().value() != path_session_id || definition.session_id.value()
        != path_session_id || head.storage_generation().get() != ordinal || ordinal != 1
        || head.previous_storage_generation().is_some()
        || head.current_definition_revision().get() != 1
        || head.current_definition_storage_generation().get() != ordinal
        || definition.revision.get() != 1 || definition.workspace.revision.get() != 1
        || head.metadata().revision.get() != 1 || head.lifecycle() != SessionLifecycle::Open
        || named_fork || head.created_at() != definition.created_at || head.created_at()
        != head.metadata().updated_at || !retained {
        return Err(DurableOpenError::DurableStateCorrupt);
    }
    Ok(())
}

/// A new definition of an open Session on the same Agent, and nothing else.
pub open spec fn session_definition_change(
    session_id: u128,
    generation: nat,
    previous: SessionHeadView,
    current: SessionDefinitionView,
    head: SessionHeadView,
    definition: SessionDefinitionView,
    agents: Map<u128, AgentEntryView>,
) -> bool {
    &&& previous.lifecycle is Open
    &&& current.session_id == session_id
    &&& current.revision == previous.current_definition_revision
    &&& definition.session_id == session_id
    &&& definition.agent_id == current.agent_id
    &&& retains_definition(agents, definition.agent_id, definition.agent_revision)
    &&& head.current_definition_revision == previous.current_definition_revision + 1
    &&& definition.revision == head.current_definition_revision
    &&& head.current_definition_storage_generation == generation
    &&& lifecycle::valid_workspace_change(current.workspace, definition.workspace)
    &&& !current.same_content(definition)
    &&& head.metadata == previous.metadata
    &&& head.lifecycle == previous.lifecycle
}

/// New metadata, and nothing else.
pub open spec fn session_metadata_change(previous: SessionHeadView, head: SessionHeadView) -> bool {
    &&& head.current_definition_revision == previous.current_definition_revision
    &&& head.current_definition_storage_generation
        == previous.current_definition_storage_generation
    &&& head.metadata.revision == previous.metadata.revision + 1
    &&& !previous.metadata.same_content(head.metadata)
    &&& head.lifecycle == previous.lifecycle
}

/// A new lifecycle, and nothing else.
pub open spec fn session_lifecycle_change(previous: SessionHeadView, head: SessionHeadView) -> bool {
    &&& head.current_definition_revision == previous.current_definition_revision
    &&& head.current_definition_storage_generation
        == previous.current_definition_storage_generation
    &&& head.metadata == previous.metadata
    &&& lifecycle::legal_session_lifecycle_change(previous.lifecycle, head.lifecycle)
}

/// What the next generation of a Session must say: exactly one kind of change, a definition document
/// exactly for a new definition, and the same origin and creation time as before.
pub open spec fn session_transition_is_valid(
    session_id: u128,
    generation: nat,
    previous: SessionHeadView,
    current: SessionDefinitionView,
    head: SessionHeadView,
    definition: Option<SessionDefinitionView>,
    agents: Map<u128, AgentEntryView>,
) -> bool {
    &&& head.session_id == session_id
    &&& head.storage_generation == generation
    &&& head.previous_storage_generation == Some(previous.storage_generation)
    &&& previous.lifecycle !is Deleted
    &&& head.fork_provenance == previous.fork_provenance
    &&& head.created_at == previous.created_at
    &&& match definition {
        Some(definition) => session_definition_change(
            session_id,
            generation,
            previous,
            current,
            head,
            definition,
            agents,
        ),
        None => session_metadata_change(previous, head) || session_lifecycle_change(previous, head),
    }
}

fn validate_session_definition_transition(
    path_session_id: u128,
    path_generation: StorageGeneration,
    previous_head: &DurableSessionHead,
    current_definition: &SessionDefinition,
    head: &DurableSessionHead,
    definition: &SessionDefinition,
    agents: &AgentCatalog,
) -> (result: Result<(), DurableOpenError>)
    ensures
        result == physical::checked(
            session_definition_change(
                path_session_id,
                path_generation@,
                previous_head@,
                current_definition@,
                head@,
                definition@,
                agent_models(agents@),
            ),
            DurableOpenError::DurableStateCorrupt,
        ),
{
    let retained = is_retained(agents, &definition.agent);
    if previous_head.lifecycle() != SessionLifecycle::Open
        || current_definition.session_id.value() != path_session_id
        || current_definition.revision.get() != previous_head.current_definition_revision().get()
        || definition.session_id.value() != path_session_id || definition.agent.agent_id.value()
        != current_definition.agent.agent_id.value() || !retained
        || !previous_head.current_definition_revision().is_followed_by(
        head.current_definition_revision(),
    ) || definition.revision.get() != head.current_definition_revision().get()
        || head.current_definition_storage_generation().get() != path_generation.get()
        || !workspace_revision_transition_is_valid(
        &current_definition.workspace,
        &definition.workspace,
    ) || session_definitions_have_same_canonical_execution_content(
        current_definition,
        definition,
    ) || !head.metadata().is_same(previous_head.metadata()) || head.lifecycle()
        != previous_head.lifecycle() {
        return Err(DurableOpenError::DurableStateCorrupt);
    }
    Ok(())
}

fn session_metadata_transition_is_valid(
    previous_head: &DurableSessionHead,
    head: &DurableSessionHead,
) -> (valid: bool)
    ensures
        valid == session_metadata_change(previous_head@, head@),
{
    head.current_definition_revision().get() == previous_head.current_definition_revision().get()
        && head.current_definition_storage_generation().get()
        == previous_head.current_definition_storage_generation().get()
        && previous_head.metadata().revision.is_followed_by(head.metadata().revision)
        && !session_metadata_has_same_canonical_content(previous_head.metadata(), head.metadata())
        && head.lifecycle() == previous_head.lifecycle()
}

fn session_lifecycle_transition_is_valid(
    previous_head: &DurableSessionHead,
    head: &DurableSessionHead,
) -> (valid: bool)
    ensures
        valid == session_lifecycle_change(previous_head@, head@),
{
    head.current_definition_revision().get() == previous_head.current_definition_revision().get()
        && head.current_definition_storage_generation().get()
        == previous_head.current_definition_storage_generation().get() && head.metadata().is_same(
        previous_head.metadata(),
    ) && is_legal_session_lifecycle_transition(previous_head.lifecycle(), head.lifecycle())
}

/// Whether two origins are the same, or both absent.
fn same_provenance(
    a: Option<SessionForkProvenance>,
    b: Option<SessionForkProvenance>,
) -> (same: bool)
    ensures
        same == (a == b),
{
    match (a, b) {
        (Some(x), Some(y)) => x == y,
        (None, None) => true,
        _ => false,
    }
}

pub fn validate_session_generation_transition(
    path_session_id: u128,
    path_generation: StorageGeneration,
    previous_head: &DurableSessionHead,
    current_definition: &SessionDefinition,
    head: &DurableSessionHead,
    definition: &Option<SessionDefinition>,
    agents: &AgentCatalog,
) -> (result: Result<(), DurableOpenError>)
    ensures
        result == physical::checked(
            session_transition_is_valid(
                path_session_id,
                path_generation@,
                previous_head@,
                current_definition@,
                head@,
                optional_definition(*definition),
                agent_models(agents@),
            ),
            DurableOpenError::DurableStateCorrupt,
        ),
{
    let follows = match head.previous_storage_generation() {
        Some(previous) => previous.get() == previous_head.storage_generation().get(),
        None => false,
    };
    if head.session_id().value() != path_session_id || head.storage_generation().get()
        != path_generation.get() || !follows || previous_head.lifecycle()
        == SessionLifecycle::Deleted || !same_provenance(
        head.fork_provenance(),
        previous_head.fork_provenance(),
    ) || head.created_at() != previous_head.created_at() {
        return Err(DurableOpenError::DurableStateCorrupt);
    }
    match definition {
        Some(definition) => validate_session_definition_transition(
            path_session_id,
            path_generation,
            previous_head,
            current_definition,
            head,
            definition,
            agents,
        ),
        None => if session_metadata_transition_is_valid(previous_head, head)
            || session_lifecycle_transition_is_valid(previous_head, head) {
            Ok(())
        } else {
            Err(DurableOpenError::DurableStateCorrupt)
        },
    }
}

pub open spec fn optional_definition(definition: Option<SessionDefinition>) -> Option<
    SessionDefinitionView,
> {
    match definition {
        Some(definition) => Some(definition@),
        None => None,
    }
}

/// The documents of one generation, the definition first.
pub open spec fn session_payload(generation: SessionGenerationView) -> Result<
    (SessionHeadView, Option<SessionDefinitionView>),
    DurableOpenError,
> {
    match generation.definition {
        Some(Err(error)) => Err(error),
        Some(Ok(definition)) => match generation.head {
            Err(error) => Err(error),
            Ok(head) => Ok((head, Some(definition))),
        },
        None => match generation.head {
            Err(error) => Err(error),
            Ok(head) => Ok((head, None)),
        },
    }
}

pub open spec fn payload_view(
    payload: Result<(DurableSessionHead, Option<SessionDefinition>), DurableOpenError>,
) -> Result<(SessionHeadView, Option<SessionDefinitionView>), DurableOpenError> {
    match payload {
        Ok((head, definition)) => Ok((head@, optional_definition(definition))),
        Err(error) => Err(error),
    }
}

fn recover_session_generation_payload(generation: SessionGeneration) -> (payload: Result<
    (DurableSessionHead, Option<SessionDefinition>),
    DurableOpenError,
>)
    ensures
        payload_view(payload) == session_payload(generation@),
{
    let definition = match generation.definition {
        None => None,
        Some(Ok(definition)) => Some(definition),
        Some(Err(error)) => return Err(error),
    };
    match generation.head {
        Ok(head) => Ok((head, definition)),
        Err(error) => Err(error),
    }
}

/// The Session that the first generation alone describes.
pub open spec fn session_from_first(
    session_id: u128,
    first: SessionGenerationView,
    agents: Map<u128, AgentEntryView>,
) -> Result<SessionEntryView, DurableOpenError> {
    match session_payload(first) {
        Err(error) => Err(error),
        Ok((head, None)) => Err(DurableOpenError::DurableStateCorrupt),
        Ok((head, Some(definition))) => if first_session_generation_is_valid(
            session_id,
            first.generation,
            head,
            definition,
            agents,
        ) {
            Ok(SessionEntryView { head, definition })
        } else {
            Err(DurableOpenError::DurableStateCorrupt)
        },
    }
}

/// The Session after one more generation.
pub open spec fn session_advanced(
    session_id: u128,
    entry: SessionEntryView,
    next: SessionGenerationView,
    agents: Map<u128, AgentEntryView>,
) -> Result<SessionEntryView, DurableOpenError> {
    if next.generation != entry.head.storage_generation + 1 {
        Err(DurableOpenError::DurableStateCorrupt)
    } else {
        match session_payload(next) {
            Err(error) => Err(error),
            Ok((head, definition)) => if !session_transition_is_valid(
                session_id,
                next.generation,
                entry.head,
                entry.definition,
                head,
                definition,
                agents,
            ) {
                Err(DurableOpenError::DurableStateCorrupt)
            } else {
                match definition {
                    None => Ok(SessionEntryView { head, ..entry }),
                    Some(definition) => Ok(SessionEntryView { head, definition }),
                }
            },
        }
    }
}

/// The Session that a chain of generations describes.
pub open spec fn session_folded(
    session_id: u128,
    generations: Seq<SessionGenerationView>,
    agents: Map<u128, AgentEntryView>,
) -> Result<SessionEntryView, DurableOpenError>
    decreases generations.len(),
{
    if generations.len() == 0 {
        Err(DurableOpenError::DurableStateCorrupt)
    } else if generations.len() == 1 {
        session_from_first(session_id, generations[0], agents)
    } else {
        match session_folded(session_id, generations.drop_last(), agents) {
            Err(error) => Err(error),
            Ok(entry) => session_advanced(session_id, entry, generations.last(), agents),
        }
    }
}

/// The same, with the rule that nothing is staged behind a deleted Session.
pub open spec fn session_chain_outcome(
    session_id: u128,
    generations: Seq<SessionGenerationView>,
    agents: Map<u128, AgentEntryView>,
    staged: bool,
) -> Result<SessionEntryView, DurableOpenError> {
    match session_folded(session_id, generations, agents) {
        Err(error) => Err(error),
        Ok(entry) => if staged && entry.head.lifecycle is Deleted {
            Err(DurableOpenError::DurableStateCorrupt)
        } else {
            Ok(entry)
        },
    }
}

proof fn lemma_session_failure_persists(
    session_id: u128,
    generations: Seq<SessionGenerationView>,
    agents: Map<u128, AgentEntryView>,
    n: int,
)
    requires
        1 <= n <= generations.len(),
        session_folded(session_id, generations.take(n), agents) is Err,
    ensures
        session_folded(session_id, generations, agents) == session_folded(
            session_id,
            generations.take(n),
            agents,
        ),
    decreases generations.len(),
{
    if n == generations.len() {
        assert(generations.take(n) =~= generations);
    } else {
        let front = generations.drop_last();
        assert(front.take(n) =~= generations.take(n));
        lemma_session_failure_persists(session_id, front, agents, n);
    }
}

pub open spec fn entry_result(
    result: Result<RecoveredSessionGenerationChain, DurableOpenError>,
) -> Result<SessionEntryView, DurableOpenError> {
    match result {
        Ok(recovered) => Ok(recovered.entry@),
        Err(error) => Err(error),
    }
}

fn start_session(session_id: u128, first: SessionGeneration, agents: &AgentCatalog) -> (result: Result<
    DurableSessionCatalogEntry,
    DurableOpenError,
>)
    ensures
        match result {
            Ok(entry) => session_from_first(session_id, first@, agent_models(agents@)) == Ok::<
                SessionEntryView,
                DurableOpenError,
            >(entry@),
            Err(error) => session_from_first(session_id, first@, agent_models(agents@)) == Err::<
                SessionEntryView,
                DurableOpenError,
            >(error),
        },
{
    let generation: StorageGeneration = first.generation;
    match recover_session_generation_payload(first) {
        Err(error) => Err(error),
        Ok((_, None)) => Err(DurableOpenError::DurableStateCorrupt),
        Ok((head, Some(definition))) => match validate_session_generation_one(
            session_id,
            generation,
            &head,
            &definition,
            agents,
        ) {
            Err(error) => Err(error),
            Ok(()) => Ok(
                DurableSessionCatalogEntry {
                    current_head: Arc::new(head),
                    current_definition: Arc::new(definition),
                },
            ),
        },
    }
}

fn advance_session(
    session_id: u128,
    entry: DurableSessionCatalogEntry,
    next: SessionGeneration,
    agents: &AgentCatalog,
) -> (result: Result<DurableSessionCatalogEntry, DurableOpenError>)
    ensures
        match result {
            Ok(advanced) => session_advanced(session_id, entry@, next@, agent_models(agents@))
                == Ok::<SessionEntryView, DurableOpenError>(advanced@),
            Err(error) => session_advanced(session_id, entry@, next@, agent_models(agents@))
                == Err::<SessionEntryView, DurableOpenError>(error),
        },
{
    let generation: StorageGeneration = next.generation;
    let DurableSessionCatalogEntry { current_head, current_definition } = entry;
    if generation.get() != current_head.storage_generation().get() + 1 {
        return Err(DurableOpenError::DurableStateCorrupt);
    }
    let (head, definition) = match recover_session_generation_payload(next) {
        Err(error) => return Err(error),
        Ok(payload) => payload,
    };
    match validate_session_generation_transition(
        session_id,
        generation,
        &current_head,
        &current_definition,
        &head,
        &definition,
        agents,
    ) {
        Err(error) => return Err(error),
        Ok(()) => {},
    }
    match definition {
        None => Ok(
            DurableSessionCatalogEntry { current_head: Arc::new(head), current_definition },
        ),
        Some(definition) => Ok(
            DurableSessionCatalogEntry {
                current_head: Arc::new(head),
                current_definition: Arc::new(definition),
            },
        ),
    }
}

/// Recovers the committed Session prefix and carries one trailing markerless generation along.
pub fn recover_session_generation_chain(
    generations: Vec<SessionGeneration>,
    markerless: Option<MarkerlessGenerationFiles>,
    session_id: u128,
    agents: &AgentCatalog,
) -> (result: Result<RecoveredSessionGenerationChain, DurableOpenError>)
    ensures
        entry_result(result) == session_chain_outcome(
            session_id,
            session_generations(generations@),
            agent_models(agents@),
            markerless is Some,
        ),
        result matches Ok(recovered) ==> recovered.markerless == markerless,
{
    let ghost views = session_generations(generations@);
    let ghost models = agent_models(agents@);
    let mut current: Option<DurableSessionCatalogEntry> = None;
    for generation in iter: generations
        invariant
            iter.seq() == generations@,
            views == session_generations(generations@),
            models == agent_models(agents@),
            match current {
                None => iter.index() == 0,
                Some(entry) => iter.index() > 0 && session_folded(
                    session_id,
                    views.take(iter.index() as int),
                    models,
                ) == Ok::<SessionEntryView, DurableOpenError>(entry@),
            },
    {
        let ghost n = iter.index() as int;
        proof {
            assert(views[n] == generation@);
            assert(views.take(n + 1).drop_last() =~= views.take(n));
            assert(views.take(n + 1).last() == generation@);
        }
        let next = match current {
            None => start_session(session_id, generation, agents),
            Some(entry) => advance_session(session_id, entry, generation, agents),
        };
        match next {
            Ok(entry) => {
                current = Some(entry);
            },
            Err(error) => {
                proof {
                    lemma_session_failure_persists(session_id, views, models, n + 1);
                }
                return Err(error);
            },
        }
    }
    assert(views.take(views.len() as int) =~= views);
    match current {
        None => Err(DurableOpenError::DurableStateCorrupt),
        Some(entry) => {
            if markerless.is_some() && entry.current_head.lifecycle() == SessionLifecycle::Deleted {
                return Err(DurableOpenError::DurableStateCorrupt);
            }
            Ok(RecoveredSessionGenerationChain { entry, markerless })
        },
    }
}

/// A recovered Session stands at the last of its generations, which are numbered without a gap; its
/// identity, its creation time and its origin never changed; no generation follows a deletion; and
/// its current definition is the one that the head names, on a retained Agent definition.
pub proof fn law_recovered_session(
    session_id: u128,
    generations: Seq<SessionGenerationView>,
    agents: Map<u128, AgentEntryView>,
)
    requires
        session_folded(session_id, generations, agents) is Ok,
    ensures
        ({
            let entry = session_folded(session_id, generations, agents)->Ok_0;
            &&& entry.head.storage_generation == generations.len()
            &&& forall|i: int|
                0 <= i < generations.len() ==> {
                    &&& (#[trigger] generations[i]).generation == i + 1
                    &&& generations[i].head is Ok
                    &&& generations[i].head->Ok_0.session_id == session_id
                    &&& generations[i].head->Ok_0.created_at == entry.head.created_at
                    &&& generations[i].head->Ok_0.fork_provenance == entry.head.fork_provenance
                    &&& i + 1 < generations.len() ==> generations[i].head->Ok_0.lifecycle !is Deleted
                }
            &&& generations.last().head->Ok_0 == entry.head
            &&& entry.definition.session_id == session_id
            &&& entry.definition.revision == entry.head.current_definition_revision
            &&& retains_definition(
                agents,
                entry.definition.agent_id,
                entry.definition.agent_revision,
            )
        }),
    decreases generations.len(),
{
    let entry = session_folded(session_id, generations, agents)->Ok_0;
    if generations.len() > 1 {
        let front = generations.drop_last();
        law_recovered_session(session_id, front, agents);
        let before = session_folded(session_id, front, agents)->Ok_0;
        assert(session_advanced(session_id, before, generations.last(), agents) == Ok::<
            SessionEntryView,
            DurableOpenError,
        >(entry));
        assert forall|i: int| 0 <= i < generations.len() implies {
            &&& (#[trigger] generations[i]).generation == i + 1
            &&& generations[i].head is Ok
            &&& generations[i].head->Ok_0.session_id == session_id
            &&& generations[i].head->Ok_0.created_at == entry.head.created_at
            &&& generations[i].head->Ok_0.fork_provenance == entry.head.fork_provenance
            &&& i + 1 < generations.len() ==> generations[i].head->Ok_0.lifecycle !is Deleted
        } by {
            if i < front.len() {
                assert(front[i] == generations[i]);
                assert(front.last() == generations[front.len() - 1]);
            }
        }
    }
}

/// A Session stays on the Agent that its first generation names.
pub proof fn law_session_never_changes_its_agent(
    session_id: u128,
    generations: Seq<SessionGenerationView>,
    agents: Map<u128, AgentEntryView>,
)
    requires
        session_folded(session_id, generations, agents) is Ok,
    ensures
        generations[0].definition matches Some(Ok(first)) && session_folded(
            session_id,
            generations,
            agents,
        )->Ok_0.definition.agent_id == first.agent_id,
    decreases generations.len(),
{
    if generations.len() > 1 {
        let front = generations.drop_last();
        assert(front[0] == generations[0]);
        law_session_never_changes_its_agent(session_id, front, agents);
    }
}

/// Reading a chain never falls back to an earlier prefix: a generation that fails makes every longer
/// chain fail with the same error.
pub proof fn law_session_chain_never_falls_back(
    session_id: u128,
    generations: Seq<SessionGenerationView>,
    more: Seq<SessionGenerationView>,
    agents: Map<u128, AgentEntryView>,
)
    requires
        generations.len() > 0,
        session_folded(session_id, generations, agents) is Err,
    ensures
        session_folded(session_id, generations + more, agents) == session_folded(
            session_id,
            generations,
            agents,
        ),
{
    let all = generations + more;
    assert(all.take(generations.len() as int) =~= generations);
    lemma_session_failure_persists(session_id, all, agents, generations.len() as int);
}

/// The models of Sessions say everything that they hold, and those of a catalog everything in it.
pub proof fn law_session_models_keep_every_field(
    generation: SessionGeneration,
    entry: DurableSessionCatalogEntry,
    agents: Map<u128, DurableAgentCatalogEntry>,
    id: u128,
)
    ensures
        generation@.generation == generation.generation@,
        match generation.head {
            Ok(head) => generation@.head == Ok::<SessionHeadView, DurableOpenError>(head@),
            Err(error) => generation@.head == Err::<SessionHeadView, DurableOpenError>(error),
        },
        match generation.definition {
            None => generation@.definition is None,
            Some(Ok(definition)) => generation@.definition == Some(
                Ok::<SessionDefinitionView, DurableOpenError>(definition@),
            ),
            Some(Err(error)) => generation@.definition == Some(
                Err::<SessionDefinitionView, DurableOpenError>(error),
            ),
        },
        entry@.head == (*entry.current_head)@,
        entry@.definition == (*entry.current_definition)@,
        agent_models(agents).contains_key(id) <==> agents.contains_key(id),
        agents.contains_key(id) ==> agent_models(agents)[id] == agents[id]@,
{
}

} // verus!
