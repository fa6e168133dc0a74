//! Which chains of generations make an Agent, said field by field.

use crate::agent_chain;
use crate::agent_chain::{AgentEntryView, AgentGenerationView};
use crate::generation::StorageGeneration;
use crate::head::AgentHeadView;
use crate::ids::Timestamp;
use crate::lifecycle::{AgentDefinitionView, AgentMetadataView, AgentStatus};
use crate::open_error::DurableOpenError;
use vstd::prelude::*;

verus! {

/// Every first generation makes an Agent, whatever its name, its description and what it executes: it
/// is enabled, stands at the first generation and retains its one definition.
pub proof fn law_every_first_generation_makes_an_agent(
    agent_id: u128,
    name: Seq<char>,
    description: Option<Seq<char>>,
    created_at: Timestamp,
    execution: Seq<u8>,
    staged: bool,
)
    ensures
        ({
            let head = AgentHeadView {
                agent_id,
                storage_generation: 1,
                previous_storage_generation: None,
                current_definition_revision: 1,
                current_definition_storage_generation: 1,
                metadata: AgentMetadataView {
                    revision: 1,
                    name,
                    description,
                    updated_at: created_at,
                },
                status: AgentStatus::Enabled,
                created_at,
            };
            let definition = AgentDefinitionView { agent_id, revision: 1, created_at, execution };
            let first = AgentGenerationView {
                generation: 1,
                head: Ok(head),
                definition: Some(Ok(definition)),
            };
            let entry = AgentEntryView {
                head,
                definition,
                index: map![1u64 => StorageGeneration::of(1)],
            };
            &&& agent_chain::first_agent_generation_is_valid(agent_id, 1, head, definition)
            &&& agent_chain::agent_folded(agent_id, seq![first]) == Ok::<
                AgentEntryView,
                DurableOpenError,
            >(entry)
            &&& agent_chain::agent_chain_outcome(agent_id, seq![first], staged) == Ok::<
                AgentEntryView,
                DurableOpenError,
            >(entry)
        }),
{
    assert(map![1u64 => StorageGeneration::of(1)] =~= Map::<u64, StorageGeneration>::empty().insert(
        1,
        StorageGeneration::of(1),
    ));
}

/// An Agent that rests on one generation was made by both documents of the first generation, which
/// agree on its identity and on the time of its creation, and count everything from one.
pub proof fn law_an_agent_starts_at_its_first_generation(
    agent_id: u128,
    first: AgentGenerationView,
)
    requires
        agent_chain::agent_folded(agent_id, seq![first]) is Ok,
    ensures
        match (first.head, first.definition) {
            (Ok(head), Some(Ok(definition))) => {
                &&& first.generation == 1
                &&& head.agent_id == agent_id && definition.agent_id == agent_id
                &&& head.storage_generation == 1
                &&& head.previous_storage_generation == None::<nat>
                &&& head.current_definition_revision == 1 && definition.revision == 1
                &&& head.current_definition_storage_generation == 1
                &&& head.metadata.revision == 1
                &&& head.status == AgentStatus::Enabled
                &&& head.created_at == definition.created_at
                &&& head.created_at == head.metadata.updated_at
                &&& agent_chain::agent_folded(agent_id, seq![first])->Ok_0.head == head
                &&& agent_chain::agent_folded(agent_id, seq![first])->Ok_0.definition == definition
            },
            _ => false,
        },
{
}

/// Any Agent that is not deleted takes up a new definition: whatever its status, its metadata and its
/// earlier definitions, the next generation with the next revision and another execution is accepted,
/// and changes nothing else.
pub proof fn law_a_live_agent_takes_a_new_definition(
    agent_id: u128,
    entry: AgentEntryView,
    execution: Seq<u8>,
    created_at: Timestamp,
)
    requires
        entry.head.agent_id == agent_id,
        entry.head.status == AgentStatus::Enabled || entry.head.status == AgentStatus::Disabled,
        execution != entry.definition.execution,
        !entry.index.contains_key((entry.head.current_definition_revision + 1) as u64),
    ensures
        ({
            let generation = entry.head.storage_generation + 1;
            let revision = entry.head.current_definition_revision + 1;
            let definition = AgentDefinitionView { agent_id, revision, created_at, execution };
            let head = AgentHeadView {
                storage_generation: generation,
                previous_storage_generation: Some(entry.head.storage_generation),
                current_definition_revision: revision,
                current_definition_storage_generation: generation,
                ..entry.head
            };
            agent_chain::agent_advanced(
                agent_id,
                entry,
                (AgentGenerationView {
                    generation,
                    head: Ok(head),
                    definition: Some(Ok(definition)),
                }),
            ) == Ok::<AgentEntryView, DurableOpenError>(
                AgentEntryView {
                    head,
                    definition,
                    index: entry.index.insert(revision as u64, StorageGeneration::of(generation)),
                },
            )
        }),
{
}

/// Any Agent that is not deleted takes up new metadata: another name or another description, at any
/// time, whatever its status; its definitions stay.
pub proof fn law_a_live_agent_takes_new_metadata(
    agent_id: u128,
    entry: AgentEntryView,
    name: Seq<char>,
    description: Option<Seq<char>>,
    updated_at: Timestamp,
)
    requires
        entry.head.agent_id == agent_id,
        entry.head.status == AgentStatus::Enabled || entry.head.status == AgentStatus::Disabled,
        name != entry.head.metadata.name || description != entry.head.metadata.description,
    ensures
        ({
            let generation = entry.head.storage_generation + 1;
            let head = AgentHeadView {
                storage_generation: generation,
                previous_storage_generation: Some(entry.head.storage_generation),
                metadata: AgentMetadataView {
                    revision: entry.head.metadata.revision + 1,
                    name,
                    description,
                    updated_at,
                },
                ..entry.head
            };
            agent_chain::agent_advanced(
                agent_id,
                entry,
                (AgentGenerationView { generation, head: Ok(head), definition: None }),
            ) == Ok::<AgentEntryView, DurableOpenError>(AgentEntryView { head, ..entry })
        }),
{
}

/// Any Agent that is not deleted takes any other status: it is enabled, disabled and deleted in any
/// order, and its metadata and definitions stay.
pub proof fn law_a_live_agent_takes_any_other_status(
    agent_id: u128,
    entry: AgentEntryView,
    status: AgentStatus,
)
    requires
        entry.head.agent_id == agent_id,
        entry.head.status == AgentStatus::Enabled || entry.head.status == AgentStatus::Disabled,
        status != entry.head.status,
    ensures
        ({
            let generation = entry.head.storage_generation + 1;
            let head = AgentHeadView {
                storage_generation: generation,
                previous_storage_generation: Some(entry.head.storage_generation),
                status,
                ..entry.head
            };
            agent_chain::agent_advanced(
                agent_id,
                entry,
                (AgentGenerationView { generation, head: Ok(head), definition: None }),
            ) == Ok::<AgentEntryView, DurableOpenError>(AgentEntryView { head, ..entry })
        }),
{
}

/// A step that is accepted changes exactly one thing of an Agent that is not deleted: its definition
/// to one that executes something else, or its metadata to another content, or its status. Everything
/// that it does not change is the same in both heads, and every count goes up by one.
pub proof fn law_an_agent_step_changes_one_thing(
    agent_id: u128,
    entry: AgentEntryView,
    next: AgentGenerationView,
)
    requires
        agent_chain::agent_advanced(agent_id, entry, next) is Ok,
    ensures
        ({
            let after = agent_chain::agent_advanced(agent_id, entry, next)->Ok_0;
            let before = entry.head;
            &&& next.head == Ok::<AgentHeadView, DurableOpenError>(after.head)
            &&& before.status != AgentStatus::Deleted
            &&& next.generation == before.storage_generation + 1
            &&& after.head.agent_id == agent_id
            &&& after.head.storage_generation == next.generation
            &&& after.head.previous_storage_generation == Some(before.storage_generation)
            &&& after.head.created_at == before.created_at
            &&& match next.definition {
                Some(Ok(definition)) => {
                    &&& after.definition == definition
                    &&& definition.agent_id == agent_id
                    &&& definition.revision == before.current_definition_revision + 1
                    &&& definition.execution != entry.definition.execution
                    &&& after.head.current_definition_revision == definition.revision
                    &&& after.head.current_definition_storage_generation == next.generation
                    &&& after.head.metadata == before.metadata
                    &&& after.head.status == before.status
                    &&& !entry.index.contains_key(definition.revision as u64)
                    &&& after.index == entry.index.insert(
                        definition.revision as u64,
                        StorageGeneration::of(next.generation),
                    )
                },
                Some(Err(_)) => false,
                None => {
                    &&& after.definition == entry.definition
                    &&& after.index == entry.index
                    &&& after.head.current_definition_revision
                        == before.current_definition_revision
                    &&& after.head.current_definition_storage_generation
                        == before.current_definition_storage_generation
                    &&& if after.head.status == before.status {
                        &&& after.head.metadata.revision == before.metadata.revision + 1
                        &&& after.head.metadata.name != before.metadata.name
                            || after.head.metadata.description != before.metadata.description
                    } else {
                        after.head.metadata == before.metadata
                    }
                },
            }
        }),
{
}

/// A document that cannot be read stops the chain with its own error, the head before the definition;
/// a generation out of turn is corrupt whatever its documents say.
pub proof fn law_an_unreadable_agent_document_decides(
    agent_id: u128,
    entry: AgentEntryView,
    next: AgentGenerationView,
    error: DurableOpenError,
)
    ensures
        next.head == Err::<AgentHeadView, DurableOpenError>(error) || (next.head is Ok
            && next.definition == Some(Err::<AgentDefinitionView, DurableOpenError>(error))) ==> {
            &&& agent_chain::agent_folded(agent_id, seq![next]) == Err::<
                AgentEntryView,
                DurableOpenError,
            >(error)
            &&& next.generation == entry.head.storage_generation + 1
                ==> agent_chain::agent_advanced(agent_id, entry, next) == Err::<
                AgentEntryView,
                DurableOpenError,
            >(error)
        },
        next.generation != entry.head.storage_generation + 1 ==> agent_chain::agent_advanced(
            agent_id,
            entry,
            next,
        ) == Err::<AgentEntryView, DurableOpenError>(DurableOpenError::DurableStateCorrupt),
        agent_chain::agent_folded(agent_id, Seq::empty()) == Err::<AgentEntryView, DurableOpenError>(
            DurableOpenError::DurableStateCorrupt,
        ),
{
}

/// Every step is taken up where the chain stands: a longer chain is the shorter one, advanced.
pub proof fn law_an_agent_chain_grows_step_by_step(
    agent_id: u128,
    generations: Seq<AgentGenerationView>,
    next: AgentGenerationView,
)
    requires
        generations.len() > 0,
    ensures
        match agent_chain::agent_folded(agent_id, generations) {
            Ok(entry) => agent_chain::agent_folded(agent_id, generations.push(next))
                == agent_chain::agent_advanced(agent_id, entry, next),
            Err(error) => agent_chain::agent_folded(agent_id, generations.push(next)) == Err::<
                AgentEntryView,
                DurableOpenError,
            >(error),
        },
{
    assert(generations.push(next).drop_last() =~= generations);
}

/// An interrupted update never makes an Agent unreadable: with a trailing generation that was not
/// committed, an Agent that is not deleted is recovered just as without it. Behind a deleted Agent
/// nothing can have been staged.
pub proof fn law_staging_leaves_a_live_agent_as_it_is(
    agent_id: u128,
    generations: Seq<AgentGenerationView>,
)
    ensures
        agent_chain::agent_chain_outcome(agent_id, generations, false) == agent_chain::agent_folded(
            agent_id,
            generations,
        ),
        match agent_chain::agent_folded(agent_id, generations) {
            Ok(entry) => if entry.head.status == AgentStatus::Deleted {
                agent_chain::agent_chain_outcome(agent_id, generations, true) == Err::<
                    AgentEntryView,
                    DurableOpenError,
                >(DurableOpenError::DurableStateCorrupt)
            } else {
                agent_chain::agent_chain_outcome(agent_id, generations, true) == Ok::<
                    AgentEntryView,
                    DurableOpenError,
                >(entry)
            },
            Err(error) => agent_chain::agent_chain_outcome(agent_id, generations, true) == Err::<
                AgentEntryView,
                DurableOpenError,
            >(error),
        },
{
}

} // verus!
