//! Reading an open store: the recovered catalog, and the Agents published since.

use crate::agent_chain::{AgentEntryView, DurableAgentCatalogEntry};
use crate::fork;
use crate::fork::SessionCatalog;
use crate::head::{DurableAgentHead, DurableSessionHead};
use crate::ids::{AgentId, AgentRevision, SessionId};
use crate::lifecycle::{AgentDefinition, SessionDefinition};
use crate::recovery::RecoveredCatalog;
use crate::session_chain;
use crate::session_chain::{AgentCatalog, SessionEntryView};
use std::sync::Arc;
use vstd::prelude::*;

verus! {

/// The content of an open store. The recovered part never changes; the published part only grows.
pub struct DurableCatalog {
    pub agents: AgentCatalog,
    pub published_agents: AgentCatalog,
    pub sessions: SessionCatalog,
}

/// The content of an open store as maps of models.
pub struct DurableCatalogView {
    pub agents: Map<u128, AgentEntryView>,
    pub published_agents: Map<u128, AgentEntryView>,
    pub sessions: Map<u128, SessionEntryView>,
}

impl View for DurableCatalog {
    type V = DurableCatalogView;

    open spec fn view(&self) -> DurableCatalogView {
        DurableCatalogView {
            agents: session_chain::agent_models(self.agents@),
            published_agents: session_chain::agent_models(self.published_agents@),
            sessions: fork::session_models(self.sessions@),
        }
    }
}

impl DurableCatalogView {
    /// The current entry of an Agent: what was published last decides.
    pub open spec fn agent(self, agent_id: u128) -> Option<AgentEntryView> {
        if self.published_agents.contains_key(agent_id) {
            Some(self.published_agents[agent_id])
        } else if self.agents.contains_key(agent_id) {
            Some(self.agents[agent_id])
        } else {
            None
        }
    }

    pub open spec fn session(self, session_id: u128) -> Option<SessionEntryView> {
        if self.sessions.contains_key(session_id) {
            Some(self.sessions[session_id])
        } else {
            None
        }
    }

    /// Whether a revision of an Agent's definition is retained, in either part.
    pub open spec fn retains(self, agent_id: u128, revision: u64) -> bool {
        ||| self.published_agents.contains_key(agent_id)
            && self.published_agents[agent_id].index.contains_key(revision)
        ||| self.agents.contains_key(agent_id) && self.agents[agent_id].index.contains_key(revision)
    }

    /// The content after one more publication.
    pub open spec fn with_published(self, agent_id: u128, entry: AgentEntryView) -> Self {
        DurableCatalogView {
            published_agents: self.published_agents.insert(agent_id, entry),
            ..self
        }
    }
}

impl DurableCatalog {
    /// The content of a store that was just opened.
    pub fn open(recovered: RecoveredCatalog) -> (catalog: Self)
        ensures
            catalog@ == (DurableCatalogView {
                agents: session_chain::agent_models(recovered.agents@),
                published_agents: Map::empty(),
                sessions: fork::session_models(recovered.sessions@),
            }),
    {
        let RecoveredCatalog { agents, sessions } = recovered;
        let published_agents: AgentCatalog = AgentCatalog::new();
        assert(session_chain::agent_models(published_agents@) =~= Map::empty());
        DurableCatalog { agents, published_agents, sessions }
    }

    fn agent_entry(&self, agent_id: u128) -> (entry: Option<&DurableAgentCatalogEntry>)
        ensures
            match entry {
                Some(entry) => self@.agent(agent_id) == Some(entry@),
                None => self@.agent(agent_id) is None,
            },
    {
        match self.published_agents.get(&agent_id) {
            Some(entry) => Some(entry),
            None => self.agents.get(&agent_id),
        }
    }

    pub fn agent_head(&self, agent_id: AgentId) -> (head: Option<&Arc<DurableAgentHead>>)
        ensures
            match head {
                Some(head) => self@.agent(agent_id@) matches Some(entry) && entry.head == (**head)@,
                None => self@.agent(agent_id@) is None,
            },
    {
        match self.agent_entry(agent_id.value()) {
            Some(entry) => Some(&entry.current_head),
            None => None,
        }
    }

    pub fn agent_current_definition(&self, agent_id: AgentId) -> (definition: Option<
        &Arc<AgentDefinition>,
    >)
        ensures
            match definition {
                Some(definition) => self@.agent(agent_id@) matches Some(entry) && entry.definition
                    == (**definition)@,
                None => self@.agent(agent_id@) is None,
            },
    {
        match self.agent_entry(agent_id.value()) {
            Some(entry) => Some(&entry.current_definition),
            None => None,
        }
    }

    pub fn contains_agent_definition(&self, agent_id: AgentId, revision: AgentRevision) -> (retained:
        bool)
        ensures
            retained == self@.retains(agent_id@, revision@ as u64),
    {
        let id: u128 = agent_id.value();
        let ordinal: u64 = revision.get();
        let published = match self.published_agents.get(&id) {
            Some(entry) => entry.definition_index.contains_key(&ordinal),
            None => false,
        };
        let recovered = match self.agents.get(&id) {
            Some(entry) => entry.definition_index.contains_key(&ordinal),
            None => false,
        };
        let retained = published || recovered;
        assert(retained == self@.retains(id, ordinal));
        retained
    }

    pub fn session_head(&self, session_id: SessionId) -> (head: Option<&Arc<DurableSessionHead>>)
        ensures
            match head {
                Some(head) => self@.session(session_id@) matches Some(entry) && entry.head == (
                **head)@,
                None => self@.session(session_id@) is None,
            },
    {
        match self.sessions.get(&session_id.value()) {
            Some(entry) => Some(&entry.current_head),
            None => None,
        }
    }

    pub fn session_current_definition(&self, session_id: SessionId) -> (definition: Option<
        &Arc<SessionDefinition>,
    >)
        ensures
            match definition {
                Some(definition) => self@.session(session_id@) matches Some(entry)
                    && entry.definition == (**definition)@,
                None => self@.session(session_id@) is None,
            },
    {
        match self.sessions.get(&session_id.value()) {
            Some(entry) => Some(&entry.current_definition),
            None => None,
        }
    }
}

/// A published Agent is seen at once, under its own identity only; nothing that was retained before
/// is lost, and no Session changes.
pub proof fn law_publication_is_visible(
    catalog: DurableCatalogView,
    agent_id: u128,
    entry: AgentEntryView,
)
    ensures
        ({
            let after = catalog.with_published(agent_id, entry);
            &&& after.agent(agent_id) == Some(entry)
            &&& forall|other: u128| other != agent_id ==> #[trigger] after.agent(other)
                == catalog.agent(other)
            &&& forall|revision: u64|
                entry.index.contains_key(revision) ==> #[trigger] after.retains(agent_id, revision)
            &&& forall|session: u128| #[trigger] after.session(session) == catalog.session(session)
            &&& !catalog.published_agents.contains_key(agent_id) ==> forall|other: u128, revision: u64|
                catalog.retains(other, revision) ==> #[trigger] after.retains(other, revision)
        }),
{
}

/// What is read of an Agent is what was published for it, or else what was recovered, whatever its
/// status; what is read of a Session is what was recovered, whatever its lifecycle. Definitions are
/// retained in both parts.
pub proof fn law_everything_in_a_catalog_is_read(
    catalog: DurableCatalogView,
    id: u128,
    agent: AgentEntryView,
    session: SessionEntryView,
    revision: u64,
)
    ensures
        catalog.agent(id) == Some(agent) <==> {
            ||| catalog.published_agents.contains_pair(id, agent)
            ||| !catalog.published_agents.contains_key(id) && catalog.agents.contains_pair(
                id,
                agent,
            )
        },
        catalog.agent(id) is None <==> !catalog.published_agents.contains_key(id)
            && !catalog.agents.contains_key(id),
        catalog.session(id) == Some(session) <==> catalog.sessions.contains_pair(id, session),
        catalog.session(id) is None <==> !catalog.sessions.contains_key(id),
        catalog.agent(id) == Some(agent) && agent.index.contains_key(revision) ==> catalog.retains(
            id,
            revision,
        ),
        catalog.retains(id, revision) ==> catalog.agent(id) is Some,
        catalog.retains(id, revision) <==> {
            ||| catalog.published_agents.contains_key(id)
                && catalog.published_agents[id].index.contains_key(revision)
            ||| catalog.agents.contains_key(id) && catalog.agents[id].index.contains_key(revision)
        },
{
}

} // verus!
