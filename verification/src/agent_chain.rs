//! Recovering an Agent from its chain of committed generations.

use crate::generation::StorageGeneration;
use crate::generation_scan::MarkerlessGenerationFiles;
use crate::head::{AgentHeadView, DurableAgentHead};
use crate::lifecycle;
use crate::lifecycle::{
    agent_definitions_have_same_canonical_execution_content,
    agent_metadata_has_same_canonical_content, is_legal_agent_status_transition, AgentDefinition,
    AgentDefinitionView, AgentStatus,
};
use crate::open_error::DurableOpenError;
use crate::physical;
use std::collections::BTreeMap;
use std::sync::Arc;
use vstd::prelude::*;

verus! {

/// The decoded documents of one committed Agent generation.
pub struct AgentGeneration {
    pub generation: StorageGeneration,
    pub head: Result<DurableAgentHead, DurableOpenError>,
    pub definition: Option<Result<AgentDefinition, DurableOpenError>>,
}

/// What the documents of one generation say.
pub struct AgentGenerationView {
    pub generation: nat,
    pub head: Result<AgentHeadView, DurableOpenError>,
    pub definition: Option<Result<AgentDefinitionView, DurableOpenError>>,
}

impl View for AgentGeneration {
    type V = AgentGenerationView;

    open spec fn view(&self) -> AgentGenerationView {
        AgentGenerationView {
            generation: self.generation@,
            head: match self.head {
                Ok(head) => Ok(head@),
                Err(error) => Err(error),
            },
            definition: match self.definition {
                None => None,
                Some(Ok(definition)) => Some(Ok(definition@)),
                Some(Err(error)) => Some(Err(error)),
            },
        }
    }
}

pub open spec fn agent_generations(generations: Seq<AgentGeneration>) -> Seq<AgentGenerationView> {
    generations.map_values(|generation: AgentGeneration| generation@)
}

/// One recovered Agent: its current facts, and where each of its definitions was committed.
pub struct DurableAgentCatalogEntry {
    pub current_head: Arc<DurableAgentHead>,
    pub current_definition: Arc<AgentDefinition>,
    pub definition_index: BTreeMap<u64, StorageGeneration>,
}

pub struct AgentEntryView {
    pub head: AgentHeadView,
    pub definition: AgentDefinitionView,
    pub index: Map<u64, StorageGeneration>,
}

impl View for DurableAgentCatalogEntry {
    type V = AgentEntryView;

    open spec fn view(&self) -> AgentEntryView {
        AgentEntryView {
            head: (*self.current_head)@,
            definition: (*self.current_definition)@,
            index: self.definition_index@,
        }
    }
}

/// A recovered Agent and the staging behind its committed generations.
pub struct RecoveredAgentGenerationChain {
    pub entry: DurableAgentCatalogEntry,
    pub markerless: Option<MarkerlessGenerationFiles>,
}

/// What the first generation of an Agent must say.
pub open spec fn first_agent_generation_is_valid(
    agent_id: u128,
    generation: nat,
    head: AgentHeadView,
    definition: AgentDefinitionView,
) -> bool {
    &&& head.agent_id == agent_id
    &&& definition.agent_id == agent_id
    &&& head.storage_generation == generation
    &&& generation == 1
    &&& head.previous_storage_generation is None
    &&& head.current_definition_revision == 1
    &&& head.current_definition_storage_generation == 1
    &&& definition.revision == 1
    &&& head.metadata.revision == 1
    &&& head.status is Enabled
    &&& head.created_at == definition.created_at
    &&& head.created_at == head.metadata.updated_at
}

pub fn validate_generation_one_agent_semantics(
    path_agent_id: u128,
    path_generation: StorageGeneration,
    head: &DurableAgentHead,
    definition: &AgentDefinition,
) -> (result: Result<(), DurableOpenError>)
    ensures
        result == physical::checked(
            first_agent_generation_is_valid(path_agent_id, path_generation@, head@, definition@),
            DurableOpenError::DurableStateCorrupt,
        ),
{
    let ordinal: u32 = path_generation.get();
    if head.agent_id().value() != path_agent_id || definition.agent_id.value() != path_agent_id
        || head.storage_generation().get() != ordinal || ordinal != 1
        || head.previous_storage_generation().is_some()
        || head.current_definition_revision().get() != 1
        || head.current_definition_storage_generation().get() != ordinal
        || definition.revision.get() != 1 || head.metadata().revision.get() != 1
        || head.status() != AgentStatus::Enabled || head.created_at() != definition.created_at
        || head.created_at() != head.metadata().updated_at {
        return Err(DurableOpenError::DurableStateCorrupt);
    }
    Ok(())
}

/// A new definition, and nothing else.
pub open spec fn agent_definition_change(
    agent_id: u128,
    generation: nat,
    previous: AgentHeadView,
    current: AgentDefinitionView,
    head: AgentHeadView,
    definition: AgentDefinitionView,
) -> bool {
    &&& definition.agent_id == agent_id
    &&& head.current_definition_revision == previous.current_definition_revision + 1
    &&& definition.revision == head.current_definition_revision
    &&& head.current_definition_storage_generation == generation
    &&& head.metadata == previous.metadata
    &&& head.status == previous.status
    &&& head.created_at == previous.created_at
    &&& current.execution != definition.execution
}

/// New metadata, and nothing else.
pub open spec fn agent_metadata_change(previous: AgentHeadView, head: AgentHeadView) -> bool {
    &&& head.current_definition_revision == previous.current_definition_revision
    &&& head.current_definition_storage_generation
        == previous.current_definition_storage_generation
    &&& head.metadata.revision == previous.metadata.revision + 1
    &&& !previous.metadata.same_content(head.metadata)
    &&& head.status == previous.status
    &&& head.created_at == previous.created_at
}

/// A new status, and nothing else.
pub open spec fn agent_status_change(previous: AgentHeadView, head: AgentHeadView) -> bool {
    &&& head.current_definition_revision == previous.current_definition_revision
    &&& head.current_definition_storage_generation
        == previous.current_definition_storage_generation
    &&& head.metadata == previous.metadata
    &&& head.created_at == previous.created_at
    &&& lifecycle::legal_agent_status_change(previous.status, head.status)
}

/// What the next generation of an Agent must say: exactly one kind of change, and a definition
/// document exactly for a new definition.
pub open spec fn agent_transition_is_valid(
    agent_id: u128,
    generation: nat,
    previous: AgentHeadView,
    current: AgentDefinitionView,
    head: AgentHeadView,
    definition: Option<AgentDefinitionView>,
) -> bool {
    &&& head.agent_id == agent_id
    &&& head.storage_generation == generation
    &&& head.previous_storage_generation == Some(previous.storage_generation)
    &&& previous.status !is Deleted
    &&& match definition {
        Some(definition) => agent_definition_change(
            agent_id,
            generation,
            previous,
            current,
            head,
            definition,
        ),
        None => agent_metadata_change(previous, head) || agent_status_change(previous, head),
    }
}

fn validate_agent_definition_transition(
    path_agent_id: u128,
    path_generation: StorageGeneration,
    previous_head: &DurableAgentHead,
    current_definition: &AgentDefinition,
    head: &DurableAgentHead,
    definition: &AgentDefinition,
) -> (result: Result<(), DurableOpenError>)
    ensures
        result == physical::checked(
            agent_definition_change(
                path_agent_id,
                path_generation@,
                previous_head@,
                current_definition@,
                head@,
                definition@,
            ),
            DurableOpenError::DurableStateCorrupt,
        ),
{
    if definition.agent_id.value() != path_agent_id
        || !previous_head.current_definition_revision().is_followed_by(
        head.current_definition_revision(),
    ) || definition.revision.get() != head.current_definition_revision().get()
        || head.current_definition_storage_generation().get() != path_generation.get()
        || !head.metadata().is_same(previous_head.metadata()) || head.status()
        != previous_head.status() || head.created_at() != previous_head.created_at()
        || agent_definitions_have_same_canonical_execution_content(
        current_definition,
        definition,
    ) {
        return Err(DurableOpenError::DurableStateCorrupt);
    }
    Ok(())
}

fn agent_metadata_transition_is_valid(
    previous_head: &DurableAgentHead,
    head: &DurableAgentHead,
) -> (valid: bool)
    ensures
        valid == agent_metadata_change(previous_head@, head@),
{
    head.current_definition_revision().get() == previous_head.current_definition_revision().get()
        && head.current_definition_storage_generation().get()
        == previous_head.current_definition_storage_generation().get()
        && previous_head.metadata().revision.is_followed_by(head.metadata().revision)
        && !agent_metadata_has_same_canonical_content(previous_head.metadata(), head.metadata())
        && head.status() == previous_head.status() && head.created_at()
        == previous_head.created_at()
}

fn agent_status_transition_is_valid(
    previous_head: &DurableAgentHead,
    head: &DurableAgentHead,
) -> (valid: bool)
    ensures
        valid == agent_status_change(previous_head@, head@),
{
    head.current_definition_revision().get() == previous_head.current_definition_revision().get()
        && head.current_definition_storage_generation().get()
        == previous_head.current_definition_storage_generation().get() && head.metadata().is_same(
        previous_head.metadata(),
    ) && head.created_at() == previous_head.created_at() && is_legal_agent_status_transition(
        previous_head.status(),
        head.status(),
    )
}

pub fn validate_agent_generation_transition(
    path_agent_id: u128,
    path_generation: StorageGeneration,
    previous_head: &DurableAgentHead,
    current_definition: &AgentDefinition,
    head: &DurableAgentHead,
    definition: &Option<AgentDefinition>,
) -> (result: Result<(), DurableOpenError>)
    ensures
        result == physical::checked(
            agent_transition_is_valid(
                path_agent_id,
                path_generation@,
                previous_head@,
                current_definition@,
                head@,
                optional_definition(*definition),
            ),
            DurableOpenError::DurableStateCorrupt,
        ),
{
    let follows = match head.previous_storage_generation() {
        Some(previous) => previous.get() == previous_head.storage_generation().get(),
        None => false,
    };
    if head.agent_id().value() != path_agent_id || head.storage_generation().get()
        != path_generation.get() || !follows || previous_head.status() == AgentStatus::Deleted {
        return Err(DurableOpenError::DurableStateCorrupt);
    }
    match definition {
        Some(definition) => validate_agent_definition_transition(
            path_agent_id,
            path_generation,
            previous_head,
            current_definition,
            head,
            definition,
        ),
        None => if agent_metadata_transition_is_valid(previous_head, head)
            || agent_status_transition_is_valid(previous_head, head) {
            Ok(())
        } else {
            Err(DurableOpenError::DurableStateCorrupt)
        },
    }
}

pub open spec fn optional_definition(definition: Option<AgentDefinition>) -> Option<
    AgentDefinitionView,
> {
    match definition {
        Some(definition) => Some(definition@),
        None => None,
    }
}

/// The documents of one generation, the head first.
pub open spec fn agent_payload(generation: AgentGenerationView) -> Result<
    (AgentHeadView, Option<AgentDefinitionView>),
    DurableOpenError,
> {
    match generation.head {
        Err(error) => Err(error),
        Ok(head) => match generation.definition {
            None => Ok((head, None)),
            Some(Ok(definition)) => Ok((head, Some(definition))),
            Some(Err(error)) => Err(error),
        },
    }
}

pub open spec fn payload_view(
    payload: Result<(DurableAgentHead, Option<AgentDefinition>), DurableOpenError>,
) -> Result<(AgentHeadView, Option<AgentDefinitionView>), DurableOpenError> {
    match payload {
        Ok((head, definition)) => Ok((head@, optional_definition(definition))),
        Err(error) => Err(error),
    }
}

fn recover_agent_generation_payload(generation: AgentGeneration) -> (payload: Result<
    (DurableAgentHead, Option<AgentDefinition>),
    DurableOpenError,
>)
    ensures
        payload_view(payload) == agent_payload(generation@),
{
    let head = match generation.head {
        Ok(head) => head,
        Err(error) => return Err(error),
    };
    match generation.definition {
        None => Ok((head, None)),
        Some(Ok(definition)) => Ok((head, Some(definition))),
        Some(Err(error)) => Err(error),
    }
}

/// The Agent that the first generation alone describes.
pub open spec fn agent_from_first(agent_id: u128, first: AgentGenerationView) -> Result<
    AgentEntryView,
    DurableOpenError,
> {
    match agent_payload(first) {
        Err(error) => Err(error),
        Ok((head, None)) => Err(DurableOpenError::DurableStateCorrupt),
        Ok((head, Some(definition))) => if first_agent_generation_is_valid(
            agent_id,
            first.generation,
            head,
            definition,
        ) {
            Ok(
                AgentEntryView {
                    head,
                    definition,
                    index: Map::empty().insert(
                        definition.revision as u64,
                        StorageGeneration::of(first.generation),
                    ),
                },
            )
        } else {
            Err(DurableOpenError::DurableStateCorrupt)
        },
    }
}

/// The Agent after one more generation.
pub open spec fn agent_advanced(
    agent_id: u128,
    entry: AgentEntryView,
    next: AgentGenerationView,
) -> Result<AgentEntryView, DurableOpenError> {
    if next.generation != entry.head.storage_generation + 1 {
        Err(DurableOpenError::DurableStateCorrupt)
    } else {
        match agent_payload(next) {
            Err(error) => Err(error),
            Ok((head, definition)) => if !agent_transition_is_valid(
                agent_id,
                next.generation,
                entry.head,
                entry.definition,
                head,
                definition,
            ) {
                Err(DurableOpenError::DurableStateCorrupt)
            } else {
                match definition {
                    None => Ok(AgentEntryView { head, ..entry }),
                    Some(definition) => if entry.index.contains_key(definition.revision as u64) {
                        Err(DurableOpenError::DurableStateCorrupt)
                    } else {
                        Ok(
                            AgentEntryView {
                                head,
                                definition,
                                index: entry.index.insert(
                                    definition.revision as u64,
                                    StorageGeneration::of(next.generation),
                                ),
                            },
                        )
                    },
                }
            },
        }
    }
}

/// The Agent that a chain of generations describes.
pub open spec fn agent_folded(agent_id: u128, generations: Seq<AgentGenerationView>) -> Result<
    AgentEntryView,
    DurableOpenError,
>
    decreases generations.len(),
{
    if generations.len() == 0 {
        Err(DurableOpenError::DurableStateCorrupt)
    } else if generations.len() == 1 {
        agent_from_first(agent_id, generations[0])
    } else {
        match agent_folded(agent_id, generations.drop_last()) {
            Err(error) => Err(error),
            Ok(entry) => agent_advanced(agent_id, entry, generations.last()),
        }
    }
}

/// The same, with the rule that nothing is staged behind a deleted Agent.
pub open spec fn agent_chain_outcome(
    agent_id: u128,
    generations: Seq<AgentGenerationView>,
    staged: bool,
) -> Result<AgentEntryView, DurableOpenError> {
    match agent_folded(agent_id, generations) {
        Err(error) => Err(error),
        Ok(entry) => if staged && entry.head.status is Deleted {
            Err(DurableOpenError::DurableStateCorrupt)
        } else {
            Ok(entry)
        },
    }
}

proof fn lemma_agent_failure_persists(
    agent_id: u128,
    generations: Seq<AgentGenerationView>,
    n: int,
)
    requires
        1 <= n <= generations.len(),
        agent_folded(agent_id, generations.take(n)) is Err,
    ensures
        agent_folded(agent_id, generations) == agent_folded(agent_id, generations.take(n)),
    decreases generations.len(),
{
    if n == generations.len() {
        assert(generations.take(n) =~= generations);
    } else {
        let front = generations.drop_last();
        assert(front.take(n) =~= generations.take(n));
        lemma_agent_failure_persists(agent_id, front, n);
    }
}

pub open spec fn entry_result(result: Result<RecoveredAgentGenerationChain, DurableOpenError>) -> Result<
    AgentEntryView,
    DurableOpenError,
> {
    match result {
        Ok(recovered) => Ok(recovered.entry@),
        Err(error) => Err(error),
    }
}

fn start_agent(agent_id: u128, first: AgentGeneration) -> (result: Result<
    DurableAgentCatalogEntry,
    DurableOpenError,
>)
    ensures
        match result {
            Ok(entry) => agent_from_first(agent_id, first@) == Ok::<
                AgentEntryView,
                DurableOpenError,
            >(entry@),
            Err(error) => agent_from_first(agent_id, first@) == Err::<
                AgentEntryView,
                DurableOpenError,
            >(error),
        },
{
    let generation: StorageGeneration = first.generation;
    match recover_agent_generation_payload(first) {
        Err(error) => Err(error),
        Ok((_, None)) => Err(DurableOpenError::DurableStateCorrupt),
        Ok((head, Some(definition))) => {
            match validate_generation_one_agent_semantics(
                agent_id,
                generation,
                &head,
                &definition,
            ) {
                Err(error) => return Err(error),
                Ok(()) => {},
            }
            let mut definition_index: BTreeMap<u64, StorageGeneration> = BTreeMap::new();
            definition_index.insert(definition.revision.get(), generation);
            proof {
                generation.lemma_of();
            }
            Ok(
                DurableAgentCatalogEntry {
                    current_head: Arc::new(head),
                    current_definition: Arc::new(definition),
                    definition_index,
                },
            )
        },
    }
}

fn advance_agent(agent_id: u128, entry: DurableAgentCatalogEntry, next: AgentGeneration) -> (result:
    Result<DurableAgentCatalogEntry, DurableOpenError>)
    ensures
        match result {
            Ok(advanced) => agent_advanced(agent_id, entry@, next@) == Ok::<
                AgentEntryView,
                DurableOpenError,
            >(advanced@),
            Err(error) => agent_advanced(agent_id, entry@, next@) == Err::<
                AgentEntryView,
                DurableOpenError,
            >(error),
        },
{
    let generation: StorageGeneration = next.generation;
    let DurableAgentCatalogEntry { current_head, current_definition, definition_index } = entry;
    let mut definition_index = definition_index;
    if generation.get() != current_head.storage_generation().get() + 1 {
        return Err(DurableOpenError::DurableStateCorrupt);
    }
    let (head, definition) = match recover_agent_generation_payload(next) {
        Err(error) => return Err(error),
        Ok(payload) => payload,
    };
    match validate_agent_generation_transition(
        agent_id,
        generation,
        &current_head,
        &current_definition,
        &head,
        &definition,
    ) {
        Err(error) => return Err(error),
        Ok(()) => {},
    }
    match definition {
        None => Ok(
            DurableAgentCatalogEntry {
                current_head: Arc::new(head),
                current_definition,
                definition_index,
            },
        ),
        Some(definition) => {
            if definition_index.insert(definition.revision.get(), generation).is_some() {
                return Err(DurableOpenError::DurableStateCorrupt);
            }
            proof {
                generation.lemma_of();
            }
            Ok(
                DurableAgentCatalogEntry {
                    current_head: Arc::new(head),
                    current_definition: Arc::new(definition),
                    definition_index,
                },
            )
        },
    }
}

/// Recovers the committed Agent prefix and carries one trailing markerless generation along.
pub fn recover_agent_generation_chain(
    generations: Vec<AgentGeneration>,
    markerless: Option<MarkerlessGenerationFiles>,
    agent_id: u128,
) -> (result: Result<RecoveredAgentGenerationChain, DurableOpenError>)
    ensures
        entry_result(result) == agent_chain_outcome(
            agent_id,
            agent_generations(generations@),
            markerless is Some,
        ),
        result matches Ok(recovered) ==> recovered.markerless == markerless,
{
    let ghost views = agent_generations(generations@);
    let mut current: Option<DurableAgentCatalogEntry> = None;
    for generation in iter: generations
        invariant
            iter.seq() == generations@,
            views == agent_generations(generations@),
            match current {
                None => iter.index() == 0,
                Some(entry) => iter.index() > 0 && agent_folded(
                    agent_id,
                    views.take(iter.index() as int),
                ) == Ok::<AgentEntryView, DurableOpenError>(entry@),
            },
    {
        let ghost n = iter.index() as int;
        proof {
            assert(views[n] == generation@);
            assert(views.take(n + 1).drop_last() =~= views.take(n));
            assert(views.take(n + 1).last() == generation@);
        }
        let next = match current {
            None => start_agent(agent_id, generation),
            Some(entry) => advance_agent(agent_id, entry, generation),
        };
        match next {
            Ok(entry) => {
                current = Some(entry);
            },
            Err(error) => {
                proof {
                    lemma_agent_failure_persists(agent_id, views, n + 1);
                }
                return Err(error);
            },
        }
    }
    assert(views.take(views.len() as int) =~= views);
    match current {
        None => Err(DurableOpenError::DurableStateCorrupt),
        Some(entry) => {
            if markerless.is_some() && entry.current_head.status() == AgentStatus::Deleted {
                return Err(DurableOpenError::DurableStateCorrupt);
            }
            Ok(RecoveredAgentGenerationChain { entry, markerless })
        },
    }
}

/// Every decoded revision fits the counter that it was read from.
pub open spec fn agent_revisions_fit(generations: Seq<AgentGenerationView>) -> bool {
    &&& forall|i: int|
        0 <= i < generations.len() && (#[trigger] generations[i]).head is Ok
            ==> generations[i].head->Ok_0.current_definition_revision <= u64::MAX
    &&& forall|i: int|
        0 <= i < generations.len() ==> 1 <= (#[trigger] generations[i]).generation
            <= crate::generation::MAXIMUM_GENERATION
}

/// A recovered Agent stands at the last of its generations, which are numbered without a gap; its
/// identity and creation time never changed; no generation follows a deletion; and its index holds
/// exactly the definitions from the first to the current one, the current one under the generation
/// that the head names.
pub proof fn law_recovered_agent(agent_id: u128, generations: Seq<AgentGenerationView>)
    requires
        agent_folded(agent_id, generations) is Ok,
        agent_revisions_fit(generations),
    ensures
        ({
            let entry = agent_folded(agent_id, generations)->Ok_0;
            &&& entry.head.storage_generation == generations.len()
            &&& forall|i: int|
                0 <= i < generations.len() ==> {
                    &&& (#[trigger] generations[i]).generation == i + 1
                    &&& generations[i].head is Ok
                    &&& generations[i].head->Ok_0.agent_id == agent_id
                    &&& generations[i].head->Ok_0.created_at == entry.head.created_at
                    &&& i + 1 < generations.len() ==> generations[i].head->Ok_0.status !is Deleted
                }
            &&& generations.last().head->Ok_0 == entry.head
            &&& entry.definition.agent_id == agent_id
            &&& entry.definition.revision == entry.head.current_definition_revision
            &&& forall|revision: u64| #[trigger]
                entry.index.contains_key(revision) <==> 1 <= revision
                    <= entry.head.current_definition_revision
            &&& entry.index[entry.head.current_definition_revision as u64]@
                == entry.head.current_definition_storage_generation
        }),
    decreases generations.len(),
{
    let entry = agent_folded(agent_id, generations)->Ok_0;
    StorageGeneration::lemma_of_ordinal(generations.last().generation);
    if generations.len() > 1 {
        let front = generations.drop_last();
        assert forall|i: int| 0 <= i < front.len() implies #[trigger] front[i]
            == generations[i] by {}
        assert(agent_revisions_fit(front));
        law_recovered_agent(agent_id, front);
        let before = agent_folded(agent_id, front)->Ok_0;
        let next = generations.last();
        assert(agent_advanced(agent_id, before, next) == Ok::<AgentEntryView, DurableOpenError>(
            entry,
        ));
        assert forall|i: int| 0 <= i < generations.len() implies {
            &&& (#[trigger] generations[i]).generation == i + 1
            &&& generations[i].head is Ok
            &&& generations[i].head->Ok_0.agent_id == agent_id
            &&& generations[i].head->Ok_0.created_at == entry.head.created_at
            &&& i + 1 < generations.len() ==> generations[i].head->Ok_0.status !is Deleted
        } by {
            if i < front.len() {
                assert(front[i] == generations[i]);
                assert(front.last() == generations[front.len() - 1]);
            }
        }
    }
}

/// Reading a chain never falls back to an earlier prefix: a generation that fails makes every longer
/// chain fail with the same error.
pub proof fn law_agent_chain_never_falls_back(
    agent_id: u128,
    generations: Seq<AgentGenerationView>,
    more: Seq<AgentGenerationView>,
)
    requires
        generations.len() > 0,
        agent_folded(agent_id, generations) is Err,
    ensures
        agent_folded(agent_id, generations + more) == agent_folded(agent_id, generations),
{
    let all = generations + more;
    assert(all.take(generations.len() as int) =~= generations);
    lemma_agent_failure_persists(agent_id, all, generations.len() as int);
}

/// The models of Agents say everything that they hold.
pub proof fn law_agent_models_keep_every_field(
    generation: AgentGeneration,
    entry: DurableAgentCatalogEntry,
)
    ensures
        generation@.generation == generation.generation@,
        match generation.head {
            Ok(head) => generation@.head == Ok::<AgentHeadView, DurableOpenError>(head@),
            Err(error) => generation@.head == Err::<AgentHeadView, DurableOpenError>(error),
        },
        match generation.definition {
            None => generation@.definition is None,
            Some(Ok(definition)) => generation@.definition == Some(
                Ok::<AgentDefinitionView, DurableOpenError>(definition@),
            ),
            Some(Err(error)) => generation@.definition == Some(
                Err::<AgentDefinitionView, DurableOpenError>(error),
            ),
        },
        entry@.head == (*entry.current_head)@,
        entry@.definition == (*entry.current_definition)@,
        entry@.index == entry.definition_index@,
{
}

} // verus!
