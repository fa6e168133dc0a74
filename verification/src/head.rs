//! The physical head documents of Agents and Sessions.
//!
//! A head checks only what one document shows. How adjacent generations relate is the business of
//! recovery.

use crate::generation::StorageGeneration;
use crate::ids::{AgentId, AgentRevision, SessionDefinitionRevision, SessionId, Timestamp};
use crate::lifecycle::{
    AgentMetadata, AgentMetadataView, AgentStatus, SessionForkProvenance, SessionLifecycle,
    SessionMetadata, SessionMetadataView,
};
use vstd::prelude::*;

verus! {

/// The closed, redacted construction failure for one physical Agent head document.
#[derive(Clone, Copy, Debug, PartialEq, Eq, Structural)]
pub enum DurableAgentHeadError {
    InvalidInvariant,
}

impl DurableAgentHeadError {
    pub fn message(self) -> (text: &'static str)
        ensures
            text@ == "invalid durable agent head"@,
    {
        "invalid durable agent head"
    }
}

/// The closed, redacted construction failure for one physical Session head document.
#[derive(Clone, Copy, Debug, PartialEq, Eq, Structural)]
pub enum DurableSessionHeadError {
    InvalidInvariant,
}

impl DurableSessionHeadError {
    pub fn message(self) -> (text: &'static str)
        ensures
            text@ == "invalid durable session head"@,
    {
        "invalid durable session head"
    }
}

pub open spec fn optional_ordinal(generation: Option<StorageGeneration>) -> Option<nat> {
    match generation {
        Some(generation) => Some(generation@),
        None => None,
    }
}

pub open spec fn expected_previous(ordinal: nat) -> Option<nat> {
    if ordinal > 1 {
        Some((ordinal - 1) as nat)
    } else {
        None
    }
}

fn is_expected_previous(
    storage_generation: StorageGeneration,
    previous: Option<StorageGeneration>,
) -> (result: bool)
    ensures
        result == (optional_ordinal(previous) == expected_previous(storage_generation@)),
{
    match (storage_generation.previous(), previous) {
        (Some(expected), Some(previous)) => expected.get() == previous.get(),
        (None, None) => true,
        _ => false,
    }
}

/// What an Agent head document says.
pub struct AgentHeadView {
    pub agent_id: u128,
    pub storage_generation: nat,
    pub previous_storage_generation: Option<nat>,
    pub current_definition_revision: nat,
    pub current_definition_storage_generation: nat,
    pub metadata: AgentMetadataView,
    pub status: AgentStatus,
    pub created_at: Timestamp,
}

impl AgentHeadView {
    /// The facts that one document must show: the generation directly below, and a definition that is
    /// not newer than the head.
    pub open spec fn is_consistent(self) -> bool {
        &&& self.previous_storage_generation == expected_previous(self.storage_generation)
        &&& self.current_definition_storage_generation <= self.storage_generation
    }
}

/// The physical Agent head.
pub struct DurableAgentHead {
    agent_id: AgentId,
    storage_generation: StorageGeneration,
    previous_storage_generation: Option<StorageGeneration>,
    current_definition_revision: AgentRevision,
    current_definition_storage_generation: StorageGeneration,
    metadata: AgentMetadata,
    status: AgentStatus,
    created_at: Timestamp,
}

/// What may be shown of an Agent head.
#[derive(Clone, Copy, Debug)]
pub struct RedactedAgentHead {
    pub storage_generation: StorageGeneration,
    pub current_definition_storage_generation: StorageGeneration,
    pub status: AgentStatus,
}

impl View for DurableAgentHead {
    type V = AgentHeadView;

    closed spec fn view(&self) -> AgentHeadView {
        AgentHeadView {
            agent_id: self.agent_id@,
            storage_generation: self.storage_generation@,
            previous_storage_generation: optional_ordinal(self.previous_storage_generation),
            current_definition_revision: self.current_definition_revision@,
            current_definition_storage_generation: self.current_definition_storage_generation@,
            metadata: self.metadata@,
            status: self.status,
            created_at: self.created_at,
        }
    }
}

impl DurableAgentHead {
    #[verifier::type_invariant]
    spec fn is_consistent(&self) -> bool {
        self@.is_consistent()
    }

    pub fn new(
        agent_id: AgentId,
        storage_generation: StorageGeneration,
        previous_storage_generation: Option<StorageGeneration>,
        current_definition_revision: AgentRevision,
        current_definition_storage_generation: StorageGeneration,
        metadata: AgentMetadata,
        status: AgentStatus,
        created_at: Timestamp,
    ) -> (result: Result<Self, DurableAgentHeadError>)
        ensures
            ({
                let view = AgentHeadView {
                    agent_id: agent_id@,
                    storage_generation: storage_generation@,
                    previous_storage_generation: optional_ordinal(previous_storage_generation),
                    current_definition_revision: current_definition_revision@,
                    current_definition_storage_generation: current_definition_storage_generation@,
                    metadata: metadata@,
                    status,
                    created_at,
                };
                &&& result is Ok <==> view.is_consistent()
                &&& result matches Ok(head) ==> head@ == view
            }),
    {
        if !is_expected_previous(storage_generation, previous_storage_generation)
            || current_definition_storage_generation.get() > storage_generation.get() {
            return Err(DurableAgentHeadError::InvalidInvariant);
        }
        Ok(
            DurableAgentHead {
                agent_id,
                storage_generation,
                previous_storage_generation,
                current_definition_revision,
                current_definition_storage_generation,
                metadata,
                status,
                created_at,
            },
        )
    }

    pub fn agent_id(&self) -> (id: AgentId)
        ensures
            id@ == self@.agent_id,
            self@.is_consistent(),
    {
        proof {
            use_type_invariant(self);
        }
        self.agent_id
    }

    pub fn storage_generation(&self) -> (generation: StorageGeneration)
        ensures
            generation@ == self@.storage_generation,
    {
        self.storage_generation
    }

    pub fn previous_storage_generation(&self) -> (generation: Option<StorageGeneration>)
        ensures
            optional_ordinal(generation) == self@.previous_storage_generation,
    {
        self.previous_storage_generation
    }

    pub fn current_definition_revision(&self) -> (revision: AgentRevision)
        ensures
            revision@ == self@.current_definition_revision,
    {
        self.current_definition_revision
    }

    pub fn current_definition_storage_generation(&self) -> (generation: StorageGeneration)
        ensures
            generation@ == self@.current_definition_storage_generation,
    {
        self.current_definition_storage_generation
    }

    pub fn metadata(&self) -> (metadata: &AgentMetadata)
        ensures
            metadata@ == self@.metadata,
    {
        &self.metadata
    }

    pub fn status(&self) -> (status: AgentStatus)
        ensures
            status == self@.status,
    {
        self.status
    }

    pub fn created_at(&self) -> (created_at: Timestamp)
        ensures
            created_at == self@.created_at,
    {
        self.created_at
    }

    /// The form that may be printed: neither the identity nor the metadata.
    pub fn redacted(&self) -> (shown: RedactedAgentHead)
        ensures
            shown.storage_generation@ == self@.storage_generation,
            shown.current_definition_storage_generation@
                == self@.current_definition_storage_generation,
            shown.status == self@.status,
    {
        RedactedAgentHead {
            storage_generation: self.storage_generation,
            current_definition_storage_generation: self.current_definition_storage_generation,
            status: self.status,
        }
    }
}

/// What a Session head document says.
pub struct SessionHeadView {
    pub session_id: u128,
    pub storage_generation: nat,
    pub previous_storage_generation: Option<nat>,
    pub current_definition_revision: nat,
    pub current_definition_storage_generation: nat,
    pub metadata: SessionMetadataView,
    pub lifecycle: SessionLifecycle,
    pub fork_provenance: Option<SessionForkProvenance>,
    pub created_at: Timestamp,
}

impl SessionHeadView {
    /// The Session that this one was forked from.
    pub open spec fn fork_source(self) -> Option<u128> {
        match self.fork_provenance {
            Some(provenance) => Some(provenance.source_session_id@),
            None => None,
        }
    }

    /// The facts that one document must show: the generation directly below, a definition that is not
    /// newer than the head, and a fork source other than the Session itself.
    pub open spec fn is_consistent(self) -> bool {
        &&& self.previous_storage_generation == expected_previous(self.storage_generation)
        &&& self.current_definition_storage_generation <= self.storage_generation
        &&& self.fork_source() != Some(self.session_id)
    }
}

/// The physical Session head.
pub struct DurableSessionHead {
    session_id: SessionId,
    storage_generation: StorageGeneration,
    previous_storage_generation: Option<StorageGeneration>,
    current_definition_revision: SessionDefinitionRevision,
    current_definition_storage_generation: StorageGeneration,
    metadata: SessionMetadata,
    lifecycle: SessionLifecycle,
    fork_provenance: Option<SessionForkProvenance>,
    created_at: Timestamp,
}

/// What may be shown of a Session head.
#[derive(Clone, Copy, Debug)]
pub struct RedactedSessionHead {
    pub storage_generation: StorageGeneration,
    pub current_definition_storage_generation: StorageGeneration,
    pub lifecycle: SessionLifecycle,
}

impl View for DurableSessionHead {
    type V = SessionHeadView;

    closed spec fn view(&self) -> SessionHeadView {
        SessionHeadView {
            session_id: self.session_id@,
            storage_generation: self.storage_generation@,
            previous_storage_generation: optional_ordinal(self.previous_storage_generation),
            current_definition_revision: self.current_definition_revision@,
            current_definition_storage_generation: self.current_definition_storage_generation@,
            metadata: self.metadata@,
            lifecycle: self.lifecycle,
            fork_provenance: self.fork_provenance,
            created_at: self.created_at,
        }
    }
}

impl DurableSessionHead {
    #[verifier::type_invariant]
    spec fn is_consistent(&self) -> bool {
        self@.is_consistent()
    }

    pub fn new(
        session_id: SessionId,
        storage_generation: StorageGeneration,
        previous_storage_generation: Option<StorageGeneration>,
        current_definition_revision: SessionDefinitionRevision,
        current_definition_storage_generation: StorageGeneration,
        metadata: SessionMetadata,
        lifecycle: SessionLifecycle,
        fork_provenance: Option<SessionForkProvenance>,
        created_at: Timestamp,
    ) -> (result: Result<Self, DurableSessionHeadError>)
        ensures
            ({
                let view = SessionHeadView {
                    session_id: session_id@,
                    storage_generation: storage_generation@,
                    previous_storage_generation: optional_ordinal(previous_storage_generation),
                    current_definition_revision: current_definition_revision@,
                    current_definition_storage_generation: current_definition_storage_generation@,
                    metadata: metadata@,
                    lifecycle,
                    fork_provenance,
                    created_at,
                };
                &&& result is Ok <==> view.is_consistent()
                &&& result matches Ok(head) ==> head@ == view
            }),
    {
        let forks_itself = match fork_provenance {
            Some(provenance) => provenance.source_session_id.value() == session_id.value(),
            None => false,
        };
        if !is_expected_previous(storage_generation, previous_storage_generation)
            || current_definition_storage_generation.get() > storage_generation.get()
            || forks_itself {
            return Err(DurableSessionHeadError::InvalidInvariant);
        }
        Ok(
            DurableSessionHead {
                session_id,
                storage_generation,
                previous_storage_generation,
                current_definition_revision,
                current_definition_storage_generation,
                metadata,
                lifecycle,
                fork_provenance,
                created_at,
            },
        )
    }

    pub fn session_id(&self) -> (id: SessionId)
        ensures
            id@ == self@.session_id,
            self@.is_consistent(),
    {
        proof {
            use_type_invariant(self);
        }
        self.session_id
    }

    pub fn storage_generation(&self) -> (generation: StorageGeneration)
        ensures
            generation@ == self@.storage_generation,
    {
        self.storage_generation
    }

    pub fn previous_storage_generation(&self) -> (generation: Option<StorageGeneration>)
        ensures
            optional_ordinal(generation) == self@.previous_storage_generation,
    {
        self.previous_storage_generation
    }

    pub fn current_definition_revision(&self) -> (revision: SessionDefinitionRevision)
        ensures
            revision@ == self@.current_definition_revision,
    {
        self.current_definition_revision
    }

    pub fn current_definition_storage_generation(&self) -> (generation: StorageGeneration)
        ensures
            generation@ == self@.current_definition_storage_generation,
    {
        self.current_definition_storage_generation
    }

    pub fn metadata(&self) -> (metadata: &SessionMetadata)
        ensures
            metadata@ == self@.metadata,
    {
        &self.metadata
    }

    pub fn lifecycle(&self) -> (lifecycle: SessionLifecycle)
        ensures
            lifecycle == self@.lifecycle,
    {
        self.lifecycle
    }

    pub fn fork_provenance(&self) -> (provenance: Option<SessionForkProvenance>)
        ensures
            provenance == self@.fork_provenance,
    {
        self.fork_provenance
    }

    pub fn created_at(&self) -> (created_at: Timestamp)
        ensures
            created_at == self@.created_at,
    {
        self.created_at
    }

    /// The form that may be printed: neither an identity, nor the metadata, nor the fork origin.
    pub fn redacted(&self) -> (shown: RedactedSessionHead)
        ensures
            shown.storage_generation@ == self@.storage_generation,
            shown.current_definition_storage_generation@
                == self@.current_definition_storage_generation,
            shown.lifecycle == self@.lifecycle,
    {
        RedactedSessionHead {
            storage_generation: self.storage_generation,
            current_definition_storage_generation: self.current_definition_storage_generation,
            lifecycle: self.lifecycle,
        }
    }
}

/// A head is consistent exactly if it names the generation directly below its own, or none for the
/// first, and a definition that was committed no later; whatever its metadata, its status and its times.
/// A Session moreover was not forked from itself.
pub proof fn law_consistent_heads(agent: AgentHeadView, session: SessionHeadView)
    requires
        agent.storage_generation >= 1,
        session.storage_generation >= 1,
    ensures
        agent.is_consistent() <==> {
            &&& agent.current_definition_storage_generation <= agent.storage_generation
            &&& match agent.previous_storage_generation {
                Some(previous) => previous >= 1 && agent.storage_generation == previous + 1,
                None => agent.storage_generation == 1,
            }
        },
        session.is_consistent() <==> {
            &&& session.current_definition_storage_generation <= session.storage_generation
            &&& session.fork_provenance matches Some(provenance)
                ==> provenance.source_session_id@ != session.session_id
            &&& match session.previous_storage_generation {
                Some(previous) => previous >= 1 && session.storage_generation == previous + 1,
                None => session.storage_generation == 1,
            }
        },
        session.fork_source() == match session.fork_provenance {
            Some(provenance) => Some(provenance.source_session_id@),
            None => None,
        },
{
}

} // verus!
