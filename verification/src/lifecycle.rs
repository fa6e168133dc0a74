//! Agent and Session definitions, metadata and lifecycles, as far as storage depends on them.

use crate::ids::{
    AgentId, AgentMetadataRevision, AgentRevision, ItemId, SessionDefinitionRevision, SessionId,
    SessionMetadataRevision, Timestamp, WorkspaceRevision,
};
use vstd::prelude::*;

verus! {

#[derive(Clone, Copy, Debug, PartialEq, Eq, Structural)]
pub enum AgentStatus {
    Enabled,
    Disabled,
    Deleted,
}

#[derive(Clone, Copy, Debug, PartialEq, Eq, Structural)]
pub enum SessionLifecycle {
    Open,
    Archived,
    Deleted,
}

/// A status may change to any other one until the Agent is deleted.
pub open spec fn legal_agent_status_change(from: AgentStatus, to: AgentStatus) -> bool {
    from != to && from !is Deleted
}

/// A Session is archived before it is deleted, and may be reopened until then.
pub open spec fn legal_session_lifecycle_change(
    from: SessionLifecycle,
    to: SessionLifecycle,
) -> bool {
    ||| from is Open && to is Archived
    ||| from is Archived && to is Open
    ||| from is Archived && to is Deleted
}

pub fn is_legal_agent_status_transition(from: AgentStatus, to: AgentStatus) -> (legal: bool)
    ensures
        legal == legal_agent_status_change(from, to),
{
    match (from, to) {
        (AgentStatus::Enabled, AgentStatus::Disabled) => true,
        (AgentStatus::Enabled, AgentStatus::Deleted) => true,
        (AgentStatus::Disabled, AgentStatus::Enabled) => true,
        (AgentStatus::Disabled, AgentStatus::Deleted) => true,
        _ => false,
    }
}

pub fn is_legal_session_lifecycle_transition(
    from: SessionLifecycle,
    to: SessionLifecycle,
) -> (legal: bool)
    ensures
        legal == legal_session_lifecycle_change(from, to),
{
    match (from, to) {
        (SessionLifecycle::Open, SessionLifecycle::Archived) => true,
        (SessionLifecycle::Archived, SessionLifecycle::Open) => true,
        (SessionLifecycle::Archived, SessionLifecycle::Deleted) => true,
        _ => false,
    }
}

pub open spec fn optional_text(text: Option<String>) -> Option<Seq<char>> {
    match text {
        Some(text) => Some(text@),
        None => None,
    }
}

fn same_optional_text(a: &Option<String>, b: &Option<String>) -> (same: bool)
    ensures
        same == (optional_text(*a) == optional_text(*b)),
{
    match (a, b) {
        (Some(x), Some(y)) => *x == *y,
        (None, None) => true,
        _ => false,
    }
}

pub(crate) fn same_bytes(a: &Vec<u8>, b: &Vec<u8>) -> (same: bool)
    ensures
        same == (a@ == b@),
{
    crate::listing::same_name(a.as_slice(), b.as_slice())
}

/// The mutable description of an Agent.
pub struct AgentMetadata {
    pub revision: AgentMetadataRevision,
    pub name: String,
    pub description: Option<String>,
    pub updated_at: Timestamp,
}

pub struct AgentMetadataView {
    pub revision: nat,
    pub name: Seq<char>,
    pub description: Option<Seq<char>>,
    pub updated_at: Timestamp,
}

impl View for AgentMetadata {
    type V = AgentMetadataView;

    open spec fn view(&self) -> AgentMetadataView {
        AgentMetadataView {
            revision: self.revision@,
            name: self.name@,
            description: optional_text(self.description),
            updated_at: self.updated_at,
        }
    }
}

impl AgentMetadataView {
    /// Equal apart from the revision and the time of the update.
    pub open spec fn same_content(self, other: Self) -> bool {
        self.name == other.name && self.description == other.description
    }
}

pub fn agent_metadata_has_same_canonical_content(a: &AgentMetadata, b: &AgentMetadata) -> (same:
    bool)
    ensures
        same == a@.same_content(b@),
{
    a.name == b.name && same_optional_text(&a.description, &b.description)
}

impl AgentMetadata {
    pub fn is_same(&self, other: &Self) -> (same: bool)
        ensures
            same == (self@ == other@),
    {
        self.revision.get() == other.revision.get() && self.updated_at == other.updated_at
            && agent_metadata_has_same_canonical_content(self, other)
    }
}

/// The mutable description of a Session.
pub struct SessionMetadata {
    pub revision: SessionMetadataRevision,
    pub name: Option<String>,
    pub description: Option<String>,
    pub updated_at: Timestamp,
}

pub struct SessionMetadataView {
    pub revision: nat,
    pub name: Option<Seq<char>>,
    pub description: Option<Seq<char>>,
    pub updated_at: Timestamp,
}

impl View for SessionMetadata {
    type V = SessionMetadataView;

    open spec fn view(&self) -> SessionMetadataView {
        SessionMetadataView {
            revision: self.revision@,
            name: optional_text(self.name),
            description: optional_text(self.description),
            updated_at: self.updated_at,
        }
    }
}

impl SessionMetadataView {
    /// Equal apart from the revision and the time of the update.
    pub open spec fn same_content(self, other: Self) -> bool {
        self.name == other.name && self.description == other.description
    }
}

pub fn session_metadata_has_same_canonical_content(a: &SessionMetadata, b: &SessionMetadata) -> (same:
    bool)
    ensures
        same == a@.same_content(b@),
{
    same_optional_text(&a.name, &b.name) && same_optional_text(&a.description, &b.description)
}

impl SessionMetadata {
    pub fn is_same(&self, other: &Self) -> (same: bool)
        ensures
            same == (self@ == other@),
    {
        self.revision.get() == other.revision.get() && self.updated_at == other.updated_at
            && session_metadata_has_same_canonical_content(self, other)
    }
}

/// One immutable Agent definition. `execution` is the canonical encoding of what the Agent executes.
pub struct AgentDefinition {
    pub agent_id: AgentId,
    pub revision: AgentRevision,
    pub created_at: Timestamp,
    pub execution: Vec<u8>,
}

pub struct AgentDefinitionView {
    pub agent_id: u128,
    pub revision: nat,
    pub created_at: Timestamp,
    pub execution: Seq<u8>,
}

impl View for AgentDefinition {
    type V = AgentDefinitionView;

    open spec fn view(&self) -> AgentDefinitionView {
        AgentDefinitionView {
            agent_id: self.agent_id@,
            revision: self.revision@,
            created_at: self.created_at,
            execution: self.execution@,
        }
    }
}

pub fn agent_definitions_have_same_canonical_execution_content(
    a: &AgentDefinition,
    b: &AgentDefinition,
) -> (same: bool)
    ensures
        same == (a@.execution == b@.execution),
{
    same_bytes(&a.execution, &b.execution)
}

/// A pinned Agent definition.
#[derive(Clone, Copy, PartialEq, Eq, Structural)]
pub struct AgentReference {
    pub agent_id: AgentId,
    pub revision: AgentRevision,
}

/// The workspace of a Session. `content` is its canonical encoding.
pub struct SessionWorkspace {
    pub revision: WorkspaceRevision,
    pub content: Vec<u8>,
}

pub open spec fn valid_workspace_change(
    from: SessionWorkspaceView,
    to: SessionWorkspaceView,
) -> bool {
    if from.content == to.content {
        to.revision == from.revision
    } else {
        to.revision == from.revision + 1
    }
}

/// A workspace revision advances by one exactly when the workspace changes.
pub fn workspace_revision_transition_is_valid(
    from: &SessionWorkspace,
    to: &SessionWorkspace,
) -> (valid: bool)
    ensures
        valid == valid_workspace_change(from@, to@),
{
    if same_bytes(&from.content, &to.content) {
        from.revision.get() == to.revision.get()
    } else {
        from.revision.is_followed_by(to.revision)
    }
}

/// One immutable Session definition. `execution` is the canonical encoding of the rest of it.
pub struct SessionDefinition {
    pub session_id: SessionId,
    pub revision: SessionDefinitionRevision,
    pub agent: AgentReference,
    pub workspace: SessionWorkspace,
    pub created_at: Timestamp,
    pub execution: Vec<u8>,
}

pub struct SessionWorkspaceView {
    pub revision: nat,
    pub content: Seq<u8>,
}

pub struct SessionDefinitionView {
    pub session_id: u128,
    pub revision: nat,
    pub agent_id: u128,
    pub agent_revision: nat,
    pub workspace: SessionWorkspaceView,
    pub created_at: Timestamp,
    pub execution: Seq<u8>,
}

impl View for SessionWorkspace {
    type V = SessionWorkspaceView;

    open spec fn view(&self) -> SessionWorkspaceView {
        SessionWorkspaceView { revision: self.revision@, content: self.content@ }
    }
}

impl View for SessionDefinition {
    type V = SessionDefinitionView;

    open spec fn view(&self) -> SessionDefinitionView {
        SessionDefinitionView {
            session_id: self.session_id@,
            revision: self.revision@,
            agent_id: self.agent.agent_id@,
            agent_revision: self.agent.revision@,
            workspace: self.workspace@,
            created_at: self.created_at,
            execution: self.execution@,
        }
    }
}

impl SessionDefinitionView {
    /// Equal apart from the identity, the revisions of definition and workspace, and the time.
    pub open spec fn same_content(self, other: Self) -> bool {
        &&& self.agent_id == other.agent_id
        &&& self.agent_revision == other.agent_revision
        &&& self.workspace.content == other.workspace.content
        &&& self.execution == other.execution
    }
}

pub fn session_definitions_have_same_canonical_execution_content(
    a: &SessionDefinition,
    b: &SessionDefinition,
) -> (same: bool)
    ensures
        same == a@.same_content(b@),
{
    a.agent.agent_id.value() == b.agent.agent_id.value() && a.agent.revision.get()
        == b.agent.revision.get() && same_bytes(&a.workspace.content, &b.workspace.content)
        && same_bytes(&a.execution, &b.execution)
}

#[derive(Clone, Copy, Debug, PartialEq, Eq, Structural)]
pub enum ForkSourceKind {
    RecordedHistory,
    LiveSnapshot,
}

/// Where a fork leaves its source.
#[derive(Clone, Copy, PartialEq, Eq, Structural)]
pub enum ForkAnchor {
    Genesis,
    BeforeUserMessage { item_id: ItemId },
    AfterUserMessage { item_id: ItemId },
    BeforeFinalAgentMessage { item_id: ItemId },
}

/// The immutable origin of a forked Session.
#[derive(Clone, Copy, PartialEq, Eq, Structural)]
pub struct SessionForkProvenance {
    pub source_session_id: SessionId,
    pub source: ForkSourceKind,
    pub anchor: ForkAnchor,
}

impl SessionForkProvenance {
    pub fn new(source_session_id: SessionId, source: ForkSourceKind, anchor: ForkAnchor) -> (provenance:
        Self)
        ensures
            provenance == (SessionForkProvenance { source_session_id, source, anchor }),
    {
        SessionForkProvenance { source_session_id, source, anchor }
    }
}

/// The changes of a status and of a lifecycle, one by one: a live Agent takes every other status; an
/// open Session can only be archived, an archived one can be opened again or deleted.
pub proof fn law_legal_changes(
    from: AgentStatus,
    to: AgentStatus,
    before: SessionLifecycle,
    after: SessionLifecycle,
)
    ensures
        legal_agent_status_change(from, to) == match (from, to) {
            (AgentStatus::Enabled, AgentStatus::Disabled) => true,
            (AgentStatus::Enabled, AgentStatus::Deleted) => true,
            (AgentStatus::Disabled, AgentStatus::Enabled) => true,
            (AgentStatus::Disabled, AgentStatus::Deleted) => true,
            _ => false,
        },
        legal_session_lifecycle_change(before, after) == match (before, after) {
            (SessionLifecycle::Open, SessionLifecycle::Archived) => true,
            (SessionLifecycle::Archived, SessionLifecycle::Open) => true,
            (SessionLifecycle::Archived, SessionLifecycle::Deleted) => true,
            _ => false,
        },
{
}

/// Metadata have the same content exactly if both the name and the description are the same; the
/// revision and the time do not matter. Of a definition the pinned Agent, the workspace and the
/// execution count; its identity, its revisions and its time do not.
pub proof fn law_content_leaves_counts_and_times_out(
    agent: AgentMetadataView,
    other_agent: AgentMetadataView,
    session: SessionMetadataView,
    other_session: SessionMetadataView,
    definition: SessionDefinitionView,
    other_definition: SessionDefinitionView,
)
    ensures
        agent.same_content(other_agent) <==> agent.name == other_agent.name && agent.description
            == other_agent.description,
        session.same_content(other_session) <==> session.name == other_session.name
            && session.description == other_session.description,
        definition.same_content(other_definition) <==> definition.agent_id
            == other_definition.agent_id && definition.agent_revision
            == other_definition.agent_revision && definition.workspace.content
            == other_definition.workspace.content && definition.execution
            == other_definition.execution,
        valid_workspace_change(definition.workspace, other_definition.workspace) <==> (
        other_definition.workspace.revision - definition.workspace.revision == if definition.workspace.content
            == other_definition.workspace.content {
            0int
        } else {
            1
        }),
{
}

/// The models of metadata and definitions say everything that they hold.
pub proof fn law_models_keep_every_field(
    agent: AgentMetadata,
    session: SessionMetadata,
    agent_definition: AgentDefinition,
    session_definition: SessionDefinition,
)
    ensures
        agent@.revision == agent.revision@ && agent@.name == agent.name@ && agent@.updated_at
            == agent.updated_at,
        match agent.description {
            Some(text) => agent@.description == Some(text@),
            None => agent@.description is None,
        },
        session@.revision == session.revision@ && session@.updated_at == session.updated_at,
        match session.name {
            Some(text) => session@.name == Some(text@),
            None => session@.name is None,
        },
        match session.description {
            Some(text) => session@.description == Some(text@),
            None => session@.description is None,
        },
        agent_definition@.agent_id == agent_definition.agent_id@,
        agent_definition@.revision == agent_definition.revision@,
        agent_definition@.created_at == agent_definition.created_at,
        agent_definition@.execution == agent_definition.execution@,
        session_definition@.session_id == session_definition.session_id@,
        session_definition@.revision == session_definition.revision@,
        session_definition@.agent_id == session_definition.agent.agent_id@,
        session_definition@.agent_revision == session_definition.agent.revision@,
        session_definition@.workspace.revision == session_definition.workspace.revision@,
        session_definition@.workspace.content == session_definition.workspace.content@,
        session_definition@.created_at == session_definition.created_at,
        session_definition@.execution == session_definition.execution@,
{
}

/// Deletion is final, nothing changes into itself, and an open Session is never deleted at once.
pub proof fn law_lifecycles_end_with_deletion(
    status: AgentStatus,
    other_status: AgentStatus,
    lifecycle: SessionLifecycle,
    other_lifecycle: SessionLifecycle,
)
    ensures
        !legal_agent_status_change(AgentStatus::Deleted, status),
        !legal_agent_status_change(status, status),
        status !is Deleted && status != other_status ==> legal_agent_status_change(
            status,
            other_status,
        ),
        !legal_session_lifecycle_change(SessionLifecycle::Deleted, lifecycle),
        !legal_session_lifecycle_change(lifecycle, lifecycle),
        legal_session_lifecycle_change(lifecycle, SessionLifecycle::Deleted) <==> lifecycle
            is Archived,
        legal_session_lifecycle_change(lifecycle, other_lifecycle) && other_lifecycle !is Deleted
            ==> legal_session_lifecycle_change(other_lifecycle, lifecycle),
{
}

} // verus!
