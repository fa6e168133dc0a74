//! Which chains of generations make a Session, said field by field.

use crate::agent_chain::AgentEntryView;
use crate::head::SessionHeadView;
use crate::ids::Timestamp;
use crate::lifecycle::{
    SessionDefinitionView, SessionForkProvenance, SessionLifecycle, SessionMetadataView,
    SessionWorkspaceView,
};
use crate::open_error::DurableOpenError;
use crate::session_chain;
use crate::session_chain::{SessionEntryView, SessionGenerationView};
use vstd::prelude::*;

verus! {

/// Every first generation on a retained Agent definition makes a Session, whatever its name, its
/// description, its workspace and what it executes, and whatever revision of the Agent it pins. A fork
/// starts without a name and a description, whatever it was forked from.
pub proof fn law_every_first_generation_makes_a_session(
    session_id: u128,
    agents: Map<u128, AgentEntryView>,
    agent_id: u128,
    agent_revision: u64,
    name: Option<Seq<char>>,
    description: Option<Seq<char>>,
    fork_provenance: Option<SessionForkProvenance>,
    workspace: Seq<u8>,
    execution: Seq<u8>,
    created_at: Timestamp,
    staged: bool,
)
    requires
        agents.contains_key(agent_id),
        agents[agent_id].index.contains_key(agent_revision),
        fork_provenance is None || (name is None && description is None),
    ensures
        ({
            let head = SessionHeadView {
                session_id,
                storage_generation: 1,
                previous_storage_generation: None,
                current_definition_revision: 1,
                current_definition_storage_generation: 1,
                metadata: SessionMetadataView {
                    revision: 1,
                    name,
                    description,
                    updated_at: created_at,
                },
                lifecycle: SessionLifecycle::Open,
                fork_provenance,
                created_at,
            };
            let definition = SessionDefinitionView {
                session_id,
                revision: 1,
                agent_id,
                agent_revision: agent_revision as nat,
                workspace: SessionWorkspaceView { revision: 1, content: workspace },
                created_at,
                execution,
            };
            let first = SessionGenerationView {
                generation: 1,
                head: Ok(head),
                definition: Some(Ok(definition)),
            };
            let entry = SessionEntryView { head, definition };
            &&& session_chain::first_session_generation_is_valid(
                session_id,
                1,
                head,
                definition,
                agents,
            )
            &&& session_chain::session_folded(session_id, seq![first], agents) == Ok::<
                SessionEntryView,
                DurableOpenError,
            >(entry)
            &&& session_chain::session_chain_outcome(session_id, seq![first], agents, staged)
                == Ok::<SessionEntryView, DurableOpenError>(entry)
        }),
{
}

/// A Session that rests on one generation was made by both documents of the first generation, which
/// agree on its identity and on the time of its creation, count everything from one, and pin a
/// definition that its Agent retains. A fork has neither a name nor a description yet.
pub proof fn law_a_session_starts_at_its_first_generation(
    session_id: u128,
    first: SessionGenerationView,
    agents: Map<u128, AgentEntryView>,
)
    requires
        session_chain::session_folded(session_id, seq![first], agents) is Ok,
    ensures
        match (first.head, first.definition) {
            (Ok(head), Some(Ok(definition))) => {
                &&& first.generation == 1
                &&& head.session_id == session_id && definition.session_id == session_id
                &&& head.storage_generation == 1
                &&& head.previous_storage_generation == None::<nat>
                &&& head.current_definition_revision == 1 && definition.revision == 1
                &&& head.current_definition_storage_generation == 1
                &&& definition.workspace.revision == 1
                &&& head.metadata.revision == 1
                &&& head.lifecycle == SessionLifecycle::Open
                &&& head.created_at == definition.created_at
                &&& head.created_at == head.metadata.updated_at
                &&& head.fork_provenance != None::<SessionForkProvenance> ==> {
                    &&& head.metadata.name == None::<Seq<char>>
                    &&& head.metadata.description == None::<Seq<char>>
                }
                &&& agents.contains_key(definition.agent_id)
                &&& agents[definition.agent_id].index.contains_key(definition.agent_revision as u64)
                &&& session_chain::session_folded(session_id, seq![first], agents)->Ok_0 == (
                SessionEntryView { head, definition })
            },
            _ => false,
        },
{
}

/// An open Session takes up a new definition on its own Agent: any retained revision of the Agent, any
/// workspace and any execution, as long as one of them is another one. The workspace counts up exactly
/// when it changes; the metadata stay.
pub proof fn law_an_open_session_takes_a_new_definition(
    session_id: u128,
    entry: SessionEntryView,
    agents: Map<u128, AgentEntryView>,
    agent_revision: u64,
    workspace: Seq<u8>,
    execution: Seq<u8>,
    created_at: Timestamp,
)
    requires
        entry.head.session_id == session_id,
        entry.definition.session_id == session_id,
        entry.definition.revision == entry.head.current_definition_revision,
        entry.head.lifecycle == SessionLifecycle::Open,
        agents.contains_key(entry.definition.agent_id),
        agents[entry.definition.agent_id].index.contains_key(agent_revision),
        agent_revision != entry.definition.agent_revision || workspace
            != entry.definition.workspace.content || execution != entry.definition.execution,
    ensures
        ({
            let generation = entry.head.storage_generation + 1;
            let revision = entry.head.current_definition_revision + 1;
            let definition = SessionDefinitionView {
                session_id,
                revision,
                agent_id: entry.definition.agent_id,
                agent_revision: agent_revision as nat,
                workspace: SessionWorkspaceView {
                    revision: if workspace == entry.definition.workspace.content {
                        entry.definition.workspace.revision
                    } else {
                        entry.definition.workspace.revision + 1
                    },
                    content: workspace,
                },
                created_at,
                execution,
            };
            let head = SessionHeadView {
                storage_generation: generation,
                previous_storage_generation: Some(entry.head.storage_generation),
                current_definition_revision: revision,
                current_definition_storage_generation: generation,
                ..entry.head
            };
            session_chain::session_advanced(
                session_id,
                entry,
                (SessionGenerationView {
                    generation,
                    head: Ok(head),
                    definition: Some(Ok(definition)),
                }),
                agents,
            ) == Ok::<SessionEntryView, DurableOpenError>(SessionEntryView { head, definition })
        }),
{
}

/// Any Session that is not deleted takes up new metadata, open or archived: another name or another
/// description, set, changed or taken away, at any time; its definition stays.
pub proof fn law_an_undeleted_session_takes_new_metadata(
    session_id: u128,
    entry: SessionEntryView,
    agents: Map<u128, AgentEntryView>,
    name: Option<Seq<char>>,
    description: Option<Seq<char>>,
    updated_at: Timestamp,
)
    requires
        entry.head.session_id == session_id,
        entry.head.lifecycle == SessionLifecycle::Open || entry.head.lifecycle
            == SessionLifecycle::Archived,
        name != entry.head.metadata.name || description != entry.head.metadata.description,
    ensures
        ({
            let generation = entry.head.storage_generation + 1;
            let head = SessionHeadView {
                storage_generation: generation,
                previous_storage_generation: Some(entry.head.storage_generation),
                metadata: SessionMetadataView {
                    revision: entry.head.metadata.revision + 1,
                    name,
                    description,
                    updated_at,
                },
                ..entry.head
            };
            session_chain::session_advanced(
                session_id,
                entry,
                (SessionGenerationView { generation, head: Ok(head), definition: None }),
                agents,
            ) == Ok::<SessionEntryView, DurableOpenError>(SessionEntryView { head, ..entry })
        }),
{
}

/// An open Session is archived; an archived one is opened again or deleted. Its metadata and its
/// definition stay.
pub proof fn law_a_session_is_archived_reopened_and_deleted(
    session_id: u128,
    entry: SessionEntryView,
    agents: Map<u128, AgentEntryView>,
    lifecycle: SessionLifecycle,
)
    requires
        entry.head.session_id == session_id,
        match entry.head.lifecycle {
            SessionLifecycle::Open => lifecycle == SessionLifecycle::Archived,
            SessionLifecycle::Archived => lifecycle != SessionLifecycle::Archived,
            SessionLifecycle::Deleted => false,
        },
    ensures
        ({
            let generation = entry.head.storage_generation + 1;
            let head = SessionHeadView {
                storage_generation: generation,
                previous_storage_generation: Some(entry.head.storage_generation),
                lifecycle,
                ..entry.head
            };
            session_chain::session_advanced(
                session_id,
                entry,
                (SessionGenerationView { generation, head: Ok(head), definition: None }),
                agents,
            ) == Ok::<SessionEntryView, DurableOpenError>(SessionEntryView { head, ..entry })
        }),
{
}

/// A step that is accepted changes exactly one thing of a Session that is not deleted: the definition
/// of an open Session, on the same Agent, to one with another content; or the metadata to another
/// content; or the lifecycle. Everything that it does not change is the same in both heads, and every
/// count goes up by one.
pub proof fn law_a_session_step_changes_one_thing(
    session_id: u128,
    entry: SessionEntryView,
    next: SessionGenerationView,
    agents: Map<u128, AgentEntryView>,
)
    requires
        session_chain::session_advanced(session_id, entry, next, agents) is Ok,
    ensures
        ({
            let after = session_chain::session_advanced(session_id, entry, next, agents)->Ok_0;
            let before = entry.head;
            &&& next.head == Ok::<SessionHeadView, DurableOpenError>(after.head)
            &&& before.lifecycle != SessionLifecycle::Deleted
            &&& next.generation == before.storage_generation + 1
            &&& after.head.session_id == session_id
            &&& after.head.storage_generation == next.generation
            &&& after.head.previous_storage_generation == Some(before.storage_generation)
            &&& after.head.created_at == before.created_at
            &&& after.head.fork_provenance == before.fork_provenance
            &&& match next.definition {
                Some(Ok(definition)) => {
                    let old = entry.definition;
                    &&& after.definition == definition
                    &&& before.lifecycle == SessionLifecycle::Open
                    &&& after.head.lifecycle == SessionLifecycle::Open
                    &&& after.head.metadata == before.metadata
                    &&& definition.session_id == session_id
                    &&& definition.revision == before.current_definition_revision + 1
                    &&& after.head.current_definition_revision == definition.revision
                    &&& after.head.current_definition_storage_generation == next.generation
                    &&& definition.agent_id == old.agent_id
                    &&& agents.contains_key(definition.agent_id)
                    &&& agents[definition.agent_id].index.contains_key(
                        definition.agent_revision as u64,
                    )
                    &&& definition.workspace.revision == if definition.workspace.content
                        == old.workspace.content {
                        old.workspace.revision
                    } else {
                        old.workspace.revision + 1
                    }
                    &&& definition.agent_revision != old.agent_revision
                        || definition.workspace.content != old.workspace.content
                        || definition.execution != old.execution
                },
                Some(Err(_)) => false,
                None => {
                    &&& after.definition == entry.definition
                    &&& after.head.current_definition_revision
                        == before.current_definition_revision
                    &&& after.head.current_definition_storage_generation
                        == before.current_definition_storage_generation
                    &&& if after.head.lifecycle == before.lifecycle {
                        &&& after.head.metadata.revision == before.metadata.revision + 1
                        &&& after.head.metadata.name != before.metadata.name
                            || after.head.metadata.description != before.metadata.description
                    } else {
                        &&& after.head.metadata == before.metadata
                        &&& before.lifecycle == SessionLifecycle::Open ==> after.head.lifecycle
                            == SessionLifecycle::Archived
                    }
                },
            }
        }),
{
}

/// A document that cannot be read stops the chain with its own error, the definition before the head;
/// a generation out of turn is corrupt whatever its documents say.
pub proof fn law_an_unreadable_session_document_decides(
    session_id: u128,
    entry: SessionEntryView,
    next: SessionGenerationView,
    agents: Map<u128, AgentEntryView>,
    error: DurableOpenError,
)
    ensures
        next.definition == Some(Err::<SessionDefinitionView, DurableOpenError>(error)) || (
        !(next.definition matches Some(Err(_))) && next.head == Err::<
            SessionHeadView,
            DurableOpenError,
        >(error)) ==> {
            &&& session_chain::session_folded(session_id, seq![next], agents) == Err::<
                SessionEntryView,
                DurableOpenError,
            >(error)
            &&& next.generation == entry.head.storage_generation + 1
                ==> session_chain::session_advanced(session_id, entry, next, agents) == Err::<
                SessionEntryView,
                DurableOpenError,
            >(error)
        },
        next.generation != entry.head.storage_generation + 1 ==> session_chain::session_advanced(
            session_id,
            entry,
            next,
            agents,
        ) == Err::<SessionEntryView, DurableOpenError>(DurableOpenError::DurableStateCorrupt),
        session_chain::session_folded(session_id, Seq::empty(), agents) == Err::<
            SessionEntryView,
            DurableOpenError,
        >(DurableOpenError::DurableStateCorrupt),
{
}

/// Every step is taken up where the chain stands: a longer chain is the shorter one, advanced.
pub proof fn law_a_session_chain_grows_step_by_step(
    session_id: u128,
    generations: Seq<SessionGenerationView>,
    next: SessionGenerationView,
    agents: Map<u128, AgentEntryView>,
)
    requires
        generations.len() > 0,
    ensures
        match session_chain::session_folded(session_id, generations, agents) {
            Ok(entry) => session_chain::session_folded(session_id, generations.push(next), agents)
                == session_chain::session_advanced(session_id, entry, next, agents),
            Err(error) => session_chain::session_folded(
                session_id,
                generations.push(next),
                agents,
            ) == Err::<SessionEntryView, DurableOpenError>(error),
        },
{
    assert(generations.push(next).drop_last() =~= generations);
}

/// An interrupted update never makes a Session unreadable: with a trailing generation that was not
/// committed, a Session that is not deleted is recovered just as without it. Behind a deleted Session
/// nothing can have been staged.
pub proof fn law_staging_leaves_an_undeleted_session_as_it_is(
    session_id: u128,
    generations: Seq<SessionGenerationView>,
    agents: Map<u128, AgentEntryView>,
)
    ensures
        session_chain::session_chain_outcome(session_id, generations, agents, false)
            == session_chain::session_folded(session_id, generations, agents),
        match session_chain::session_folded(session_id, generations, agents) {
            Ok(entry) => if entry.head.lifecycle == SessionLifecycle::Deleted {
                session_chain::session_chain_outcome(session_id, generations, agents, true) == Err::<
                    SessionEntryView,
                    DurableOpenError,
                >(DurableOpenError::DurableStateCorrupt)
            } else {
                session_chain::session_chain_outcome(session_id, generations, agents, true) == Ok::<
                    SessionEntryView,
                    DurableOpenError,
                >(entry)
            },
            Err(error) => session_chain::session_chain_outcome(
                session_id,
                generations,
                agents,
                true,
            ) == Err::<SessionEntryView, DurableOpenError>(error),
        },
{
}

} // verus!
