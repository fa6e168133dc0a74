//! The store on a disk in memory: opening, recovery, cleanup, reservation and publication.

use std::collections::{BTreeMap, BTreeSet, VecDeque};
use std::sync::Arc;

use minicore::actor::{
    admit_create_request, continue_after_reservation, decide, first_agent_head, ActorEffect,
    ActorEvent, Admission, AdmissionWait,
};
use minicore::barrier::{DurableCommitBarrier, ReservationAttemptStage};
use minicore::bootstrap::{
    ComparedFile, EntranceAction, EntranceEvent, LockAttempt, SyncAttempt,
};
use minicore::catalog::DurableCatalog;
use minicore::cleanup_plan::{
    DeferredCleanup, DeferredGenerationCleanup, DeferredUnpublishedEntityCleanup,
    EntityCleanupObservation, GenerationCleanupObservation, RedactedCleanup,
};
use minicore::cleanup_run::{
    finalize_deferred_generation_cleanup, finalize_deferred_unpublished_entity_cleanup,
    CleanupAction, CleanupEvent, CleanupRun, CleanupStep, DirectorySync,
};
use minicore::collection_scan::{
    EntityCollectionObservation, EntityEntryObservation, NamedEntryObservation, RecoveryCaps,
    ReservationCollectionObservation, ReservationEntryObservation, ReservationsObservation,
};
use minicore::entity_scan::{scan_agent_entity, EntityKind, EntityObservation};
use minicore::generation::StorageGeneration;
use minicore::generation_scan::{GenerationEntryObservation, GenerationPayloadObservation};
use minicore::head::{DurableAgentHead, DurableSessionHead};
use minicore::ids::{
    AgentId, AgentMetadataRevision, AgentRevision, ItemId, SessionDefinitionRevision, SessionId,
    SessionMetadataRevision, Timestamp, WorkspaceRevision,
};
use minicore::lifecycle::{
    AgentDefinition, AgentMetadata, AgentReference, AgentStatus, ForkAnchor, ForkSourceKind,
    SessionDefinition, SessionForkProvenance, SessionLifecycle, SessionMetadata, SessionWorkspace,
};
use minicore::listing::{
    CleanupEntry, DirectoryListing, FORMAT_MARKER, GENERATION_ENTRY_CAP, LOCK_FILE,
};
use minicore::location::{EntityKey, StoreLocation};
use minicore::open_error::{
    map_durable_document_codec_error, DurableAgentCreateError, DurableOpenError,
    DurableStoreCodecError, UnpublishedConversationRecoveryError,
};
use minicore::opening::{OpenRoot, OpeningAction, OpeningEvent, RootOpening};
use minicore::physical::{
    read_durable_document, CleanupNodeIdentityShape, DocumentObservation, Lookup, LookupError,
    NodeKind, NodeMetadata, OpenFileObservation, StoreLimits, ZeroFileObservation,
};
use minicore::publication::{Publication, PublicationAction, PublicationEvent, PublicationStep};
use minicore::publication_check::{
    PublicationWorkResult, PublishedAgentObservation, ReadbackObservation, StagingObservation,
};
use minicore::recovery::{
    recover_marked_root, AgentDocuments, ConversationExpectation, ConversationObservation,
    RecoveryCandidate, RecoveryDocuments, RecoveryProgress, SessionDocuments,
    UnpublishedConversationRecoveryShape,
};
use minicore::reservation::{
    map_reservation_failure, reconcile_reservation, AgentReservation, AgentReservationEvent,
    ReservationAction, ReservationAttempt, ReservationEvent, ReservationFailure,
    ReservationInventory, ReservationPhysicalObservation,
};
use minicore::root_scan::{
    scan_marked_root, MarkedRootObservation, MarkedRootScan, RootEntryObservation,
};
use minicore::scaffold::{ScaffoldAction, ScaffoldEvent};

const AGENT_ONE: &str = "agt_11111111111111111111111111111111";
const AGENT_TWO: &str = "agt_22222222222222222222222222222222";
const SESSION_ONE: &str = "ses_22222222222222222222222222222222";
const SESSION_TWO: &str = "ses_33333333333333333333333333333333";
const SESSION_THREE: &str = "ses_44444444444444444444444444444444";
const SESSION_BEFORE_SOURCE: &str = "ses_11111111111111111111111111111111";
const GENERATION_ONE: &str = "00000000000000000001";
const GENERATION_TWO: &str = "00000000000000000002";
const GENERATION_THREE: &str = "00000000000000000003";
const GENERATION_FOUR: &str = "00000000000000000004";

fn agent(name: &str) -> AgentId {
    AgentId::parse(name.as_bytes()).unwrap()
}

fn session(name: &str) -> SessionId {
    SessionId::parse(name.as_bytes()).unwrap()
}

// ---------------------------------------------------------------------------------------------
// Documents
// ---------------------------------------------------------------------------------------------

#[derive(Clone, Debug)]
struct AgentHeadDoc {
    agent: AgentId,
    generation: u32,
    previous: Option<u32>,
    revision: u64,
    definition_generation: u32,
    metadata_revision: u64,
    name: &'static str,
    updated_at: u64,
    status: AgentStatus,
    created_at: u64,
}

#[derive(Clone, Debug)]
struct AgentDefinitionDoc {
    agent: AgentId,
    revision: u64,
    created_at: u64,
    execution: &'static str,
}

#[derive(Clone, Copy, Debug, PartialEq)]
enum Anchor {
    Genesis,
    Before(u128),
    After(u128),
    BeforeFinal(u128),
}

#[derive(Clone, Copy, Debug, PartialEq)]
struct Fork {
    source: SessionId,
    live: bool,
    anchor: Anchor,
}

#[derive(Clone, Debug)]
struct SessionHeadDoc {
    session: SessionId,
    generation: u32,
    previous: Option<u32>,
    revision: u64,
    definition_generation: u32,
    metadata_revision: u64,
    name: Option<&'static str>,
    updated_at: u64,
    lifecycle: SessionLifecycle,
    fork: Option<Fork>,
    created_at: u64,
}

#[derive(Clone, Debug)]
struct SessionDefinitionDoc {
    session: SessionId,
    revision: u64,
    agent: AgentId,
    agent_revision: u64,
    workspace_revision: u64,
    workspace: &'static str,
    created_at: u64,
    execution: &'static str,
}

#[derive(Clone, Debug)]
enum Document {
    AgentHead(AgentHeadDoc),
    AgentDefinition(AgentDefinitionDoc),
    SessionHead(SessionHeadDoc),
    SessionDefinition(SessionDefinitionDoc),
}

/// 2026-08-03T10:00:00.123Z.
const AGENT_CREATED: u64 = 1_785_751_200_123;
const SESSION_CREATED: u64 = AGENT_CREATED + 1_000;
const FORK_CREATED: u64 = AGENT_CREATED + 2_000;

fn agent_head() -> AgentHeadDoc {
    AgentHeadDoc {
        agent: agent(AGENT_ONE),
        generation: 1,
        previous: None,
        revision: 1,
        definition_generation: 1,
        metadata_revision: 1,
        name: "Planner",
        updated_at: AGENT_CREATED,
        status: AgentStatus::Enabled,
        created_at: AGENT_CREATED,
    }
}

fn agent_definition() -> AgentDefinitionDoc {
    AgentDefinitionDoc {
        agent: agent(AGENT_ONE),
        revision: 1,
        created_at: AGENT_CREATED,
        execution: "prompts: base, safety",
    }
}

fn agent_head_definition_g2() -> AgentHeadDoc {
    AgentHeadDoc {
        generation: 2,
        previous: Some(1),
        revision: 2,
        definition_generation: 2,
        ..agent_head()
    }
}

fn agent_definition_g2() -> AgentDefinitionDoc {
    AgentDefinitionDoc {
        revision: 2,
        created_at: AGENT_CREATED + 10,
        execution: "second execution",
        ..agent_definition()
    }
}

fn agent_head_metadata_g2() -> AgentHeadDoc {
    AgentHeadDoc {
        generation: 2,
        previous: Some(1),
        metadata_revision: 2,
        name: "renamed agent",
        updated_at: AGENT_CREATED + 10,
        ..agent_head()
    }
}

fn agent_head_status_g2() -> AgentHeadDoc {
    AgentHeadDoc {
        generation: 2,
        previous: Some(1),
        status: AgentStatus::Disabled,
        ..agent_head()
    }
}

fn session_head() -> SessionHeadDoc {
    SessionHeadDoc {
        session: session(SESSION_ONE),
        generation: 1,
        previous: None,
        revision: 1,
        definition_generation: 1,
        metadata_revision: 1,
        name: Some("session"),
        updated_at: SESSION_CREATED,
        lifecycle: SessionLifecycle::Open,
        fork: None,
        created_at: SESSION_CREATED,
    }
}

fn session_definition() -> SessionDefinitionDoc {
    SessionDefinitionDoc {
        session: session(SESSION_ONE),
        revision: 1,
        agent: agent(AGENT_ONE),
        agent_revision: 1,
        workspace_revision: 1,
        workspace: "project",
        created_at: SESSION_CREATED,
        execution: "session execution",
    }
}

fn session_head_archived_g2() -> SessionHeadDoc {
    SessionHeadDoc {
        generation: 2,
        previous: Some(1),
        lifecycle: SessionLifecycle::Archived,
        ..session_head()
    }
}

fn session_head_metadata_g2() -> SessionHeadDoc {
    SessionHeadDoc {
        generation: 2,
        previous: Some(1),
        metadata_revision: 2,
        name: Some("renamed session"),
        updated_at: SESSION_CREATED + 10,
        ..session_head()
    }
}

fn session_head_definition_g2() -> SessionHeadDoc {
    SessionHeadDoc {
        generation: 2,
        previous: Some(1),
        revision: 2,
        definition_generation: 2,
        ..session_head()
    }
}

fn session_definition_g2() -> SessionDefinitionDoc {
    SessionDefinitionDoc {
        revision: 2,
        created_at: SESSION_CREATED + 10,
        execution: "second session execution",
        ..session_definition()
    }
}

fn fork_of(source: &str) -> Fork {
    Fork {
        source: session(source),
        live: false,
        anchor: Anchor::After(0xbbbb),
    }
}

fn fork_head(name: &str, fork: Fork) -> SessionHeadDoc {
    SessionHeadDoc {
        session: session(name),
        name: None,
        updated_at: FORK_CREATED,
        fork: Some(fork),
        created_at: FORK_CREATED,
        ..session_head()
    }
}

fn fork_definition(name: &str) -> SessionDefinitionDoc {
    SessionDefinitionDoc {
        session: session(name),
        created_at: FORK_CREATED,
        ..session_definition()
    }
}

fn time(milliseconds: u64) -> Timestamp {
    Timestamp { milliseconds }
}

fn generation(ordinal: u32) -> StorageGeneration {
    StorageGeneration::new(ordinal).unwrap()
}

fn build_agent_head(doc: &AgentHeadDoc) -> Option<DurableAgentHead> {
    DurableAgentHead::new(
        doc.agent,
        generation(doc.generation),
        doc.previous.map(generation),
        AgentRevision::new(doc.revision).unwrap(),
        generation(doc.definition_generation),
        AgentMetadata {
            revision: AgentMetadataRevision::new(doc.metadata_revision).unwrap(),
            name: doc.name.to_owned(),
            description: None,
            updated_at: time(doc.updated_at),
        },
        doc.status,
        time(doc.created_at),
    )
    .ok()
}

fn build_agent_definition(doc: &AgentDefinitionDoc) -> AgentDefinition {
    AgentDefinition {
        agent_id: doc.agent,
        revision: AgentRevision::new(doc.revision).unwrap(),
        created_at: time(doc.created_at),
        execution: doc.execution.as_bytes().to_vec(),
    }
}

fn build_provenance(fork: Fork) -> SessionForkProvenance {
    SessionForkProvenance::new(
        fork.source,
        if fork.live {
            ForkSourceKind::LiveSnapshot
        } else {
            ForkSourceKind::RecordedHistory
        },
        match fork.anchor {
            Anchor::Genesis => ForkAnchor::Genesis,
            Anchor::Before(item) => ForkAnchor::BeforeUserMessage {
                item_id: ItemId::new(item).unwrap(),
            },
            Anchor::After(item) => ForkAnchor::AfterUserMessage {
                item_id: ItemId::new(item).unwrap(),
            },
            Anchor::BeforeFinal(item) => ForkAnchor::BeforeFinalAgentMessage {
                item_id: ItemId::new(item).unwrap(),
            },
        },
    )
}

fn build_session_head(doc: &SessionHeadDoc) -> Option<DurableSessionHead> {
    DurableSessionHead::new(
        doc.session,
        generation(doc.generation),
        doc.previous.map(generation),
        SessionDefinitionRevision::new(doc.revision).unwrap(),
        generation(doc.definition_generation),
        SessionMetadata {
            revision: SessionMetadataRevision::new(doc.metadata_revision).unwrap(),
            name: doc.name.map(str::to_owned),
            description: None,
            updated_at: time(doc.updated_at),
        },
        doc.lifecycle,
        doc.fork.map(build_provenance),
        time(doc.created_at),
    )
    .ok()
}

fn build_session_definition(doc: &SessionDefinitionDoc) -> SessionDefinition {
    SessionDefinition {
        session_id: doc.session,
        revision: SessionDefinitionRevision::new(doc.revision).unwrap(),
        agent: AgentReference {
            agent_id: doc.agent,
            revision: AgentRevision::new(doc.agent_revision).unwrap(),
        },
        workspace: SessionWorkspace {
            revision: WorkspaceRevision::new(doc.workspace_revision).unwrap(),
            content: doc.workspace.as_bytes().to_vec(),
        },
        created_at: time(doc.created_at),
        execution: doc.execution.as_bytes().to_vec(),
    }
}

// ---------------------------------------------------------------------------------------------
// The disk
// ---------------------------------------------------------------------------------------------

#[derive(Clone, Debug, PartialEq)]
struct Node {
    kind: NodeKind,
    mode: u32,
    bytes: Vec<u8>,
    /// A length to report in place of the real one.
    reported: Option<u64>,
    inode: u64,
}

#[derive(Clone, Copy, PartialEq)]
enum When {
    Before,
    After,
}

/// A disk in memory. Paths have no leading slash; the root is the empty path.
struct Disk {
    nodes: BTreeMap<String, Node>,
    next_inode: u64,
    documents: BTreeMap<Vec<u8>, Document>,
    /// Operations that fail, before or after their effect.
    faults: Vec<(When, String)>,
    /// Whether a fault strikes once only.
    transient: bool,
    operations: Vec<String>,
    /// Whether someone else holds the lock.
    held: bool,
    syncs_directories: bool,
    /// What the conversation scanner says, and what it was asked.
    conversation: Result<(), UnpublishedConversationRecoveryError>,
    expected: Vec<ConversationExpectation>,
    /// Paths that cannot be looked up or read.
    unreadable: BTreeSet<String>,
}

fn parent_of(path: &str) -> String {
    match path.rfind('/') {
        Some(i) => path[..i].to_owned(),
        None => String::new(),
    }
}

fn join(directory: &str, name: &str) -> String {
    if directory.is_empty() {
        name.to_owned()
    } else {
        format!("{directory}/{name}")
    }
}

fn place(location: StoreLocation) -> String {
    location.components().join("/")
}

impl Disk {
    fn without_root() -> Self {
        Disk {
            nodes: BTreeMap::new(),
            next_inode: 1,
            documents: BTreeMap::new(),
            faults: Vec::new(),
            transient: false,
            operations: Vec::new(),
            held: false,
            syncs_directories: true,
            conversation: Ok(()),
            expected: Vec::new(),
            unreadable: BTreeSet::new(),
        }
    }

    /// An empty root.
    fn existing() -> Self {
        let mut disk = Disk::without_root();
        disk.create_directory("");
        disk
    }

    /// A marked store without entities.
    fn marked() -> Self {
        let mut disk = Disk::existing();
        disk.create_marked_empty_store();
        disk
    }

    fn create_marked_empty_store(&mut self) {
        self.create_file(LOCK_FILE, b"");
        self.create_file(FORMAT_MARKER, b"");
        for directory in [
            "reservations",
            "reservations/agents",
            "reservations/sessions",
            "agents",
            "sessions",
        ] {
            self.create_directory(directory);
        }
    }

    fn put(&mut self, path: &str, kind: NodeKind, mode: u32, bytes: &[u8]) {
        let inode = match self.nodes.get(path) {
            Some(node) if node.kind == kind => node.inode,
            _ => {
                self.next_inode += 1;
                self.next_inode
            }
        };
        self.nodes.insert(
            path.to_owned(),
            Node {
                kind,
                mode,
                bytes: bytes.to_vec(),
                reported: None,
                inode,
            },
        );
    }

    fn create_file(&mut self, path: &str, bytes: &[u8]) {
        self.put(path, NodeKind::Regular, 0o100600, bytes);
    }

    fn create_directory(&mut self, path: &str) {
        self.put(path, NodeKind::Directory, 0o040700, b"");
    }

    fn create_symlink(&mut self, path: &str) {
        self.put(path, NodeKind::Symlink, 0o120777, b"");
    }

    fn set_mode(&mut self, path: &str, mode: u32) {
        self.nodes.get_mut(path).unwrap().mode = mode;
    }

    fn holds(&self, path: &str) -> bool {
        self.nodes.contains_key(path)
    }

    fn remove(&mut self, path: &str) {
        assert!(self.nodes.remove(path).is_some());
    }

    /// Moves a directory without children, or a file.
    fn rename(&mut self, from: &str, to: &str) {
        assert!(self.is_empty(from));
        let node = self.nodes.remove(from).unwrap();
        assert!(self.nodes.insert(to.to_owned(), node).is_none());
    }

    /// Replaces a node by one of the same shape.
    fn replace(&mut self, path: &str) {
        self.next_inode += 1;
        let inode = self.next_inode;
        self.nodes.get_mut(path).unwrap().inode = inode;
    }

    fn write_document(&mut self, path: &str, document: Document) {
        let bytes = format!("{document:?}").into_bytes();
        self.documents.insert(bytes.clone(), document);
        self.create_file(path, &bytes);
    }

    fn children(&self, directory: &str) -> Vec<String> {
        self.nodes
            .keys()
            .filter(|path| !path.is_empty() && parent_of(path) == directory)
            .map(|path| match path.rfind('/') {
                Some(i) => path[i + 1..].to_owned(),
                None => path.clone(),
            })
            .collect()
    }

    fn is_empty(&self, directory: &str) -> bool {
        self.children(directory).is_empty()
    }

    // Looking.

    fn metadata(node: &Node) -> NodeMetadata {
        NodeMetadata {
            kind: node.kind,
            mode: node.mode,
            length: node.reported.unwrap_or(node.bytes.len() as u64),
            identity: CleanupNodeIdentityShape {
                device: 7,
                inode: node.inode,
            },
        }
    }

    fn look_up(&self, path: &str) -> Lookup {
        if self.unreadable.contains(path) {
            return Err(LookupError::Unreadable);
        }
        match self.nodes.get(path) {
            Some(node) => Ok(Disk::metadata(node)),
            None => Err(LookupError::NotFound),
        }
    }

    fn list<T>(
        &self,
        directory: &str,
        maximum: usize,
        mut observe: impl FnMut(Vec<u8>, &str) -> T,
    ) -> DirectoryListing<T> {
        let opened = match self.look_up(directory) {
            Ok(metadata) if metadata.kind == NodeKind::Directory => Ok(()),
            Ok(_) => Err(LookupError::Unreadable),
            Err(error) => Err(error),
        };
        let mut entries = Vec::new();
        if opened.is_ok() {
            for name in self.children(directory) {
                if entries.len() <= maximum {
                    let path = join(directory, &name);
                    entries.push(observe(name.into_bytes(), &path));
                }
            }
        }
        DirectoryListing {
            opened,
            entries,
            interrupted: false,
        }
    }

    fn observe_file(&self, path: &str) -> OpenFileObservation {
        let seen = self.look_up(path);
        OpenFileObservation {
            initial_path: seen,
            opened: seen.is_ok(),
            handle: seen,
            path: seen,
            final_handle: seen,
            final_path: seen,
        }
    }

    fn read_empty(&self, path: &str) -> ZeroFileObservation {
        ZeroFileObservation {
            file: self.observe_file(path),
            read: self.nodes.get(path).map(|node| node.bytes.len().min(1)),
        }
    }

    fn read_document(&self, path: &str) -> DocumentObservation {
        DocumentObservation {
            file: self.observe_file(path),
            content: self.nodes.get(path).map(|node| node.bytes.clone()),
        }
    }

    // Scanning.

    fn observe_entity(
        &self,
        path: &str,
        kind: EntityKind,
        generation_cap: usize,
    ) -> EntityObservation {
        let generations = join(path, "generations");
        let conversation = join(path, "conversation.jsonl");
        EntityObservation {
            listing: self.list(path, kind.entity_entry_cap(), |name, _| name),
            entity: self.look_up(path),
            published: self.read_empty(&join(path, "PUBLISHED")),
            generations_entry: self.look_up(&generations),
            generations_node: self.look_up(&generations),
            generations_exit: self.look_up(&generations),
            generations: self.list(&generations, generation_cap, |name, path| {
                GenerationEntryObservation {
                    name,
                    metadata: self.look_up(path),
                    payload: GenerationPayloadObservation {
                        listing: self.list(path, 3, |name, _| name),
                        head: self.look_up(&join(path, "head.json")),
                        definition: self.look_up(&join(path, "definition.json")),
                        committed: self.read_empty(&join(path, "COMMITTED")),
                    },
                }
            }),
            conversation_node: self.look_up(&conversation),
            conversation_exit: self.look_up(&conversation),
        }
    }

    fn observe_reservations(&self, path: &str, maximum: usize) -> ReservationCollectionObservation {
        ReservationCollectionObservation {
            metadata: self.look_up(path),
            listing: self.list(path, maximum, |name, path| ReservationEntryObservation {
                name,
                marker: self.read_empty(path),
            }),
        }
    }

    fn observe_entities(
        &self,
        path: &str,
        kind: EntityKind,
        maximum: usize,
        generation_cap: usize,
    ) -> EntityCollectionObservation {
        EntityCollectionObservation {
            metadata: self.look_up(path),
            listing: self.list(path, maximum, |name, path| EntityEntryObservation {
                name,
                metadata: self.look_up(path),
                entity: self.observe_entity(path, kind, generation_cap),
            }),
        }
    }

    fn observe_root_entries(&self) -> DirectoryListing<RootEntryObservation> {
        self.list("", 5, |name, path| RootEntryObservation {
            name,
            metadata: self.look_up(path),
            marker: self.read_empty(path),
        })
    }

    fn observe_names(&self, path: &str) -> DirectoryListing<NamedEntryObservation> {
        self.list(path, 2, |name, path| NamedEntryObservation {
            name,
            metadata: self.look_up(path),
        })
    }

    fn observe_marked_root(&self, caps: RecoveryCaps) -> MarkedRootObservation {
        MarkedRootObservation {
            reservations: ReservationsObservation {
                listing: self.observe_names("reservations"),
                agents: self.observe_reservations("reservations/agents", caps.agent_reservations),
                sessions: self
                    .observe_reservations("reservations/sessions", caps.session_reservations),
            },
            agents: self.observe_entities(
                "agents",
                EntityKind::Agent,
                caps.root_agents,
                caps.generations,
            ),
            sessions: self.observe_entities(
                "sessions",
                EntityKind::Session,
                caps.root_sessions,
                caps.generations,
            ),
        }
    }

    fn cleanup_entries(&self, path: &str, maximum: usize) -> DirectoryListing<CleanupEntry> {
        self.list(path, maximum, |name, path| CleanupEntry {
            name,
            metadata: self.look_up(path),
            reread: self.look_up(path),
        })
    }

    fn observe_generation_cleanup(
        &self,
        plan: &DeferredGenerationCleanup,
    ) -> GenerationCleanupObservation {
        let directory = place(StoreLocation::Generation(plan.key, plan.generation));
        GenerationCleanupObservation {
            reservation: self.look_up(&place(StoreLocation::Reservation(plan.key))),
            published: self.look_up(&place(StoreLocation::Published(plan.key))),
            generations: self.look_up(&place(StoreLocation::Generations(plan.key))),
            generation: self.look_up(&directory),
            payload: self.cleanup_entries(&directory, 3),
        }
    }

    fn observe_entity_cleanup(
        &self,
        plan: &DeferredUnpublishedEntityCleanup,
    ) -> EntityCleanupObservation {
        let entity = place(StoreLocation::Entity(plan.key));
        EntityCleanupObservation {
            reservation: self.look_up(&place(StoreLocation::Reservation(plan.key))),
            published: self.look_up(&place(StoreLocation::Published(plan.key))),
            entity: self.look_up(&entity),
            children: self.cleanup_entries(&entity, plan.entity_entry_cap),
            generations: self.cleanup_entries(
                &place(StoreLocation::Generations(plan.key)),
                plan.generation_collection_cap,
            ),
            payload: self.cleanup_entries(
                &place(StoreLocation::Generation(plan.key, StorageGeneration::first())),
                3,
            ),
        }
    }

    // Documents.

    fn decode<T>(
        &self,
        path: &str,
        build: impl FnOnce(&Document) -> Option<T>,
    ) -> Result<T, DurableOpenError> {
        let bytes = read_durable_document(self.read_document(path), StoreLimits::production())?;
        let error = if bytes.starts_with(b"{\"x\":{\"x\":") {
            DurableStoreCodecError::JsonStructure
        } else {
            DurableStoreCodecError::InvalidDocument
        };
        self.documents
            .get(&bytes)
            .and_then(build)
            .ok_or(map_durable_document_codec_error(error))
    }

    fn agent_documents(&self, key: EntityKey, generation: StorageGeneration) -> AgentDocuments {
        AgentDocuments {
            head: self.decode(&place(StoreLocation::Head(key, generation)), |document| {
                match document {
                    Document::AgentHead(doc) => build_agent_head(doc),
                    _ => None,
                }
            }),
            definition: self.decode(
                &place(StoreLocation::Definition(key, generation)),
                |document| match document {
                    Document::AgentDefinition(doc) => Some(build_agent_definition(doc)),
                    _ => None,
                },
            ),
        }
    }

    fn session_documents(&self, key: EntityKey, generation: StorageGeneration) -> SessionDocuments {
        SessionDocuments {
            head: self.decode(&place(StoreLocation::Head(key, generation)), |document| {
                match document {
                    Document::SessionHead(doc) => build_session_head(doc),
                    _ => None,
                }
            }),
            definition: self.decode(
                &place(StoreLocation::Definition(key, generation)),
                |document| match document {
                    Document::SessionDefinition(doc) => Some(build_session_definition(doc)),
                    _ => None,
                },
            ),
        }
    }

    fn documents(&self, scan: &MarkedRootScan) -> RecoveryDocuments {
        RecoveryDocuments {
            agents: scan
                .agents
                .iter()
                .map(|agent| {
                    let key = EntityKey {
                        kind: EntityKind::Agent,
                        id: agent.id,
                    };
                    agent
                        .entity
                        .readable_generations()
                        .into_iter()
                        .map(|generation| self.agent_documents(key, generation))
                        .collect()
                })
                .collect(),
            sessions: scan
                .sessions
                .iter()
                .map(|session| {
                    let key = EntityKey {
                        kind: EntityKind::Session,
                        id: session.id,
                    };
                    session
                        .entity
                        .readable_generations()
                        .into_iter()
                        .map(|generation| self.session_documents(key, generation))
                        .collect()
                })
                .collect(),
        }
    }

    fn observe_conversation(
        &mut self,
        session_id: u128,
        expectation: ConversationExpectation,
    ) -> ConversationObservation {
        self.expected.push(expectation);
        let key = EntityKey {
            kind: EntityKind::Session,
            id: session_id,
        };
        ConversationObservation {
            file: self.observe_file(&place(StoreLocation::Conversation(key))),
            classification: self.conversation,
        }
    }

    // Changing.

    fn strikes(&mut self, when: When, operation: &str) -> bool {
        match self
            .faults
            .iter()
            .position(|(w, o)| *w == when && o == operation)
        {
            Some(i) => {
                if self.transient {
                    self.faults.remove(i);
                }
                true
            }
            None => false,
        }
    }

    fn perform(&mut self, operation: String, effect: impl FnOnce(&mut Disk) -> bool) -> bool {
        self.operations.push(operation.clone());
        if self.strikes(When::Before, &operation) {
            return false;
        }
        let succeeded = effect(self);
        succeeded && !self.strikes(When::After, &operation)
    }

    fn make_directory(&mut self, path: &str) -> bool {
        let path = path.to_owned();
        self.perform(format!("create {path}"), |disk| {
            let parent = parent_of(&path);
            let fits = !disk.holds(&path) && (path.is_empty() || disk.holds(&parent));
            if fits {
                disk.create_directory(&path);
            }
            fits
        })
    }

    fn make_file(&mut self, path: &str) -> bool {
        let path = path.to_owned();
        self.perform(format!("create {path}"), |disk| {
            let fits = !disk.holds(&path) && disk.holds(&parent_of(&path));
            if fits {
                disk.create_file(&path, b"");
            }
            fits
        })
    }

    fn write(&mut self, path: &str, bytes: &[u8]) -> bool {
        let path = path.to_owned();
        let bytes = bytes.to_vec();
        self.perform(format!("write {path}"), |disk| {
            disk.create_file(&path, &bytes);
            true
        })
    }

    fn sync(&mut self, path: &str) -> bool {
        let path = path.to_owned();
        self.perform(format!("sync {path}"), |disk| disk.holds(&path))
    }

    fn delete(&mut self, path: &str) -> bool {
        let path = path.to_owned();
        self.perform(format!("remove {path}"), |disk| {
            let fits = disk.holds(&path) && disk.is_empty(&path);
            if fits {
                disk.nodes.remove(&path);
            }
            fits
        })
    }

    // Opening.

    fn enter(&mut self, action: EntranceAction) -> EntranceEvent {
        match action {
            EntranceAction::LookUp(location) => {
                EntranceEvent::Seen(self.look_up(&place(location)))
            }
            EntranceAction::CreateRoot => EntranceEvent::Performed(self.make_directory("")),
            EntranceAction::OpenLockFile => EntranceEvent::Performed(self.holds(LOCK_FILE)),
            EntranceAction::CreateLockFile => EntranceEvent::Performed(self.make_file(LOCK_FILE)),
            EntranceAction::InspectLockFile => EntranceEvent::Seen(self.look_up(LOCK_FILE)),
            EntranceAction::CompareLockFile => EntranceEvent::Compared(ComparedFile {
                handle: self.look_up(LOCK_FILE),
                path: self.look_up(LOCK_FILE),
            }),
            EntranceAction::LockExclusively => EntranceEvent::LockAttempted(if self.held {
                LockAttempt::Held
            } else {
                LockAttempt::Acquired
            }),
            EntranceAction::SyncRoot => {
                EntranceEvent::SyncAttempted(if self.syncs_directories {
                    SyncAttempt::Synced
                } else {
                    SyncAttempt::Unsupported
                })
            }
            EntranceAction::Finished => unreachable!(),
        }
    }

    fn complete(&mut self, action: ScaffoldAction) -> ScaffoldEvent {
        match action {
            ScaffoldAction::LookUp(location) => {
                ScaffoldEvent::Seen(self.look_up(&place(location)))
            }
            ScaffoldAction::CreateDirectory(location) => {
                ScaffoldEvent::Performed(self.make_directory(&place(location)))
            }
            ScaffoldAction::SyncDirectory(location) | ScaffoldAction::SyncFile(location) => {
                ScaffoldEvent::Performed(self.sync(&place(location)))
            }
            ScaffoldAction::List(location) => {
                ScaffoldEvent::Listed(self.observe_names(&place(location)))
            }
            ScaffoldAction::CreateFile(location) => {
                ScaffoldEvent::Performed(self.make_file(&place(location)))
            }
            ScaffoldAction::InspectFile(location) => {
                ScaffoldEvent::Seen(self.look_up(&place(location)))
            }
            ScaffoldAction::ReadEmpty(location) => {
                ScaffoldEvent::Read(self.read_empty(&place(location)))
            }
            ScaffoldAction::Finished => unreachable!(),
        }
    }

    fn clean(&mut self, action: CleanupAction) -> CleanupEvent {
        let succeeded = match action {
            CleanupAction::Perform(CleanupStep::RemoveFile(location))
            | CleanupAction::Perform(CleanupStep::RemoveDirectory(location)) => {
                self.delete(&place(location))
            }
            CleanupAction::Perform(CleanupStep::SyncDirectory(location)) => {
                self.sync(&place(location))
            }
            CleanupAction::Inspect(location) => {
                return CleanupEvent::Seen(self.look_up(&place(location)));
            }
            CleanupAction::Finished(_) => unreachable!(),
        };
        if succeeded {
            CleanupEvent::Succeeded
        } else {
            CleanupEvent::Failed
        }
    }

    fn open(&mut self) -> Result<OpenRoot, DurableOpenError> {
        self.open_with(RecoveryCaps::production())
    }

    fn open_with(&mut self, caps: RecoveryCaps) -> Result<OpenRoot, DurableOpenError> {
        self.operations.clear();
        let mut opening = RootOpening::begin();
        loop {
            let event = match opening.action() {
                OpeningAction::Enter(action) => OpeningEvent::Entrance(self.enter(action)),
                OpeningAction::ListRoot => OpeningEvent::Listed(self.observe_root_entries()),
                OpeningAction::Complete(action) => OpeningEvent::Completion(self.complete(action)),
                OpeningAction::ScanDirectories => {
                    OpeningEvent::Scanned(self.observe_marked_root(caps))
                }
                OpeningAction::ReadDocuments => match &opening {
                    RootOpening::Reading { scan, .. } => {
                        OpeningEvent::Documents(self.documents(scan))
                    }
                    _ => unreachable!(),
                },
                OpeningAction::ReadConversation {
                    session_id,
                    expectation,
                } => OpeningEvent::Conversation(self.observe_conversation(session_id, expectation)),
                OpeningAction::ObserveGeneration(plan) => {
                    OpeningEvent::GenerationSeen(self.observe_generation_cleanup(&plan))
                }
                OpeningAction::ObserveEntity(plan) => {
                    OpeningEvent::EntitySeen(self.observe_entity_cleanup(&plan))
                }
                OpeningAction::Remove(action) => OpeningEvent::Removal(self.clean(action)),
                OpeningAction::Finished => break,
            };
            opening = opening.handle(event, caps, StoreLimits::production());
        }
        match opening {
            RootOpening::Finished(result) => result,
            _ => unreachable!(),
        }
    }

    /// Recovery of a marked root, up to its cleanup plan.
    fn recover(&mut self, caps: RecoveryCaps) -> Result<RecoveryCandidate, DurableOpenError> {
        let limits = StoreLimits::production();
        let scan = scan_marked_root(
            &self.observe_root_entries().entries,
            &self.observe_marked_root(caps),
            caps,
            limits,
        )?;
        let documents = self.documents(&scan);
        match recover_marked_root(scan, documents, caps.generations)? {
            RecoveryProgress::Complete(candidate) => Ok(candidate),
            RecoveryProgress::AwaitingConversation(pending) => {
                let observation =
                    self.observe_conversation(pending.session_id(), pending.expectation());
                pending.resume(&observation, limits)
            }
        }
    }

    fn entity_plan(&mut self) -> DeferredUnpublishedEntityCleanup {
        match self.recover(RecoveryCaps::production()) {
            Ok(RecoveryCandidate {
                cleanup: Some(DeferredCleanup::UnpublishedEntity(plan)),
                ..
            }) => plan,
            _ => panic!("the plan is whole-entity cleanup"),
        }
    }

    fn generation_plan(&mut self) -> DeferredGenerationCleanup {
        match self.recover(RecoveryCaps::production()) {
            Ok(RecoveryCandidate {
                cleanup: Some(DeferredCleanup::TrailingGeneration(plan)),
                ..
            }) => plan,
            _ => panic!("a published trailing generation uses its narrow cleanup variant"),
        }
    }

    fn run(&mut self, run: CleanupRun) -> Result<(), DurableOpenError> {
        let mut run = run;
        loop {
            match run.action() {
                CleanupAction::Finished(result) => return result,
                action => run = run.handle(self.clean(action)),
            }
        }
    }

    fn finalize_entity(
        &mut self,
        plan: &DeferredUnpublishedEntityCleanup,
    ) -> Result<(), DurableOpenError> {
        let run = finalize_deferred_unpublished_entity_cleanup(
            plan,
            &self.observe_entity_cleanup(plan),
            StoreLimits::production(),
            DirectorySync::Unsupported,
        )?;
        self.run(run)
    }

    fn finalize_generation(
        &mut self,
        plan: &DeferredGenerationCleanup,
    ) -> Result<(), DurableOpenError> {
        let run = finalize_deferred_generation_cleanup(
            plan,
            &self.observe_generation_cleanup(plan),
            StoreLimits::production(),
            DirectorySync::Unsupported,
        )?;
        self.run(run)
    }

    // Reserving.

    fn attempt_reservation(
        &mut self,
        key: EntityKey,
        stage: &mut ReservationAttemptStage,
    ) -> Option<ReservationPhysicalObservation> {
        self.attempt_reservation_disturbed(key, stage, |_, _| {})
    }

    fn attempt_reservation_disturbed(
        &mut self,
        key: EntityKey,
        stage: &mut ReservationAttemptStage,
        mut disturb_readback: impl FnMut(&mut Disk, &str),
    ) -> Option<ReservationPhysicalObservation> {
        let path = place(StoreLocation::Reservation(key));
        let mut attempt = ReservationAttempt::begin(stage)?;
        loop {
            let event = match attempt.action() {
                ReservationAction::CreateMarker => {
                    let existed = self.holds(&path);
                    if self.make_file(&path) {
                        ReservationEvent::Created
                    } else {
                        ReservationEvent::CreateFailed {
                            already_exists: existed,
                        }
                    }
                }
                ReservationAction::SetPrivatePermissions => ReservationEvent::Performed(true),
                ReservationAction::InspectHandle => ReservationEvent::Handle(self.look_up(&path)),
                ReservationAction::SyncFile => ReservationEvent::Performed(self.sync(&path)),
                ReservationAction::SyncParent => {
                    ReservationEvent::Performed(self.sync(&parent_of(&path)))
                }
                ReservationAction::ReadBack => {
                    disturb_readback(self, &path);
                    ReservationEvent::ReadBack(self.read_empty(&path))
                }
                ReservationAction::Finished(observation) => return Some(observation),
            };
            attempt = attempt.handle(event, DirectorySync::Supported);
        }
    }

    fn reserve(
        &mut self,
        inventory: &mut ReservationInventory,
        candidates: &[Option<AgentId>],
    ) -> Result<AgentId, DurableAgentCreateError> {
        let mut candidates = candidates.iter();
        let mut search = AgentReservation::begin(inventory);
        loop {
            let event = match &search {
                AgentReservation::Generating { .. } => match candidates.next() {
                    Some(Some(candidate)) => AgentReservationEvent::Candidate(*candidate),
                    _ => AgentReservationEvent::CandidateUnavailable,
                },
                AgentReservation::Attempting { candidate, .. } => {
                    let key = EntityKey {
                        kind: EntityKind::Agent,
                        id: candidate.value(),
                    };
                    let mut stage = ReservationAttemptStage::Pending;
                    AgentReservationEvent::Attempted(Ok(self
                        .attempt_reservation(key, &mut stage)
                        .unwrap()))
                }
                AgentReservation::Finished(result) => return *result,
            };
            search = search.handle(inventory, event);
        }
    }

    // Publishing.

    fn read_back(&mut self, verb: &str, location: StoreLocation) -> ReadbackObservation {
        let path = place(location);
        let mut document = self.read_document(&path);
        let operation = format!("{verb} {path}");
        self.operations.push(operation.clone());
        if self.strikes(When::After, &operation) {
            document.content = None;
        }
        ReadbackObservation {
            document,
            lookup: self.look_up(&path),
        }
    }

    fn observe_published(&mut self, key: EntityKey) -> PublishedAgentObservation {
        let first = StorageGeneration::first();
        let published = self.read_back("recover", StoreLocation::Published(key));
        let head = self.read_back("recover", StoreLocation::Head(key, first));
        let definition = self.read_back("recover", StoreLocation::Definition(key, first));
        let entity = self.observe_entity(
            &place(StoreLocation::Entity(key)),
            EntityKind::Agent,
            GENERATION_ENTRY_CAP,
        );
        let documents =
            match scan_agent_entity(&entity, GENERATION_ENTRY_CAP, StoreLimits::production()) {
                Ok(scanned) => scanned
                    .readable_generations()
                    .into_iter()
                    .map(|generation| self.agent_documents(key, generation))
                    .collect(),
                Err(_) => VecDeque::new(),
            };
        PublishedAgentObservation {
            published,
            head,
            definition,
            entity,
            documents,
        }
    }

    fn observe_staging(&self, key: EntityKey) -> StagingObservation {
        let path = place(StoreLocation::Entity(key));
        let entity = self.observe_entity(&path, EntityKind::Agent, GENERATION_ENTRY_CAP);
        let documents =
            match scan_agent_entity(&entity, GENERATION_ENTRY_CAP, StoreLimits::production()) {
                Ok(scanned) => scanned
                    .readable_generations()
                    .first()
                    .map(|generation| self.agent_documents(key, *generation)),
                Err(_) => None,
            };
        StagingObservation {
            reservation: self.look_up(&place(StoreLocation::Reservation(key))),
            directory: self.look_up(&path),
            entity,
            documents,
        }
    }

    fn perform_step(&mut self, key: EntityKey, step: PublicationStep, content: Vec<u8>) -> PublicationEvent {
        match step {
            PublicationStep::CreateDirectory(location) => {
                PublicationEvent::Performed(self.make_directory(&place(location)))
            }
            PublicationStep::CreateFile(location) => {
                PublicationEvent::Performed(self.make_file(&place(location)))
            }
            PublicationStep::OpenFile(location) => {
                PublicationEvent::Performed(self.holds(&place(location)))
            }
            PublicationStep::InspectFile(location) => {
                PublicationEvent::Seen(self.look_up(&place(location)))
            }
            PublicationStep::WriteFile(location) => {
                PublicationEvent::Performed(self.write(&place(location), &content))
            }
            PublicationStep::SyncFile(location) | PublicationStep::SyncDirectory(location) => {
                PublicationEvent::Performed(self.sync(&place(location)))
            }
            PublicationStep::ReadBack(location) => {
                PublicationEvent::ReadBack(self.read_back("read", location))
            }
            PublicationStep::Recover => PublicationEvent::Recovered(self.observe_published(key)),
        }
    }

    /// Publishes the first generation of an Agent. `disturb` is called before every answer.
    fn publish_with(
        &mut self,
        head: &AgentHeadDoc,
        definition: &AgentDefinitionDoc,
        barrier: &mut DurableCommitBarrier,
        mut disturb: impl FnMut(&mut Disk, &PublicationAction, &mut DurableCommitBarrier),
    ) -> PublicationWorkResult {
        self.operations.clear();
        let key = EntityKey {
            kind: EntityKind::Agent,
            id: head.agent.value(),
        };
        let head_document = Document::AgentHead(head.clone());
        let definition_document = Document::AgentDefinition(definition.clone());
        let head_bytes = format!("{head_document:?}").into_bytes();
        let definition_bytes = format!("{definition_document:?}").into_bytes();
        self.documents.insert(head_bytes.clone(), head_document);
        self.documents
            .insert(definition_bytes.clone(), definition_document);
        let mut publication = Publication::begin(
            &build_agent_definition(definition),
            &build_agent_head(head).unwrap(),
            Ok(head_bytes),
            Ok(definition_bytes),
            DirectorySync::Supported,
            StoreLimits::production(),
            barrier,
        );
        loop {
            let action = publication.action();
            disturb(self, &action, barrier);
            let event = match action {
                PublicationAction::Perform(step) => {
                    let content = match step {
                        PublicationStep::WriteFile(location) => {
                            publication.content(location).to_vec()
                        }
                        _ => Vec::new(),
                    };
                    self.perform_step(key, step, content)
                }
                PublicationAction::ObserveStaging => {
                    PublicationEvent::Staging(self.observe_staging(key))
                }
                PublicationAction::ObserveRemoval(plan) => {
                    PublicationEvent::Removal(self.observe_entity_cleanup(&plan))
                }
                PublicationAction::Remove(action) => PublicationEvent::Cleanup(self.clean(action)),
                PublicationAction::Finished => {
                    assert!(publication.is_finished());
                    return publication.into_result();
                }
            };
            publication = publication.handle(event, barrier);
        }
    }

    fn publish(
        &mut self,
        head: &AgentHeadDoc,
        definition: &AgentDefinitionDoc,
    ) -> PublicationWorkResult {
        let mut barrier = DurableCommitBarrier::new();
        self.publish_with(head, definition, &mut barrier, |_, _, _| {})
    }

    // Fixtures.

    fn create_agent_generation(
        &mut self,
        name: &str,
        generation: &str,
        head: &AgentHeadDoc,
        definition: Option<&AgentDefinitionDoc>,
    ) -> String {
        let path = format!("agents/{name}/generations/{generation}");
        self.create_directory(&path);
        self.write_document(&join(&path, "head.json"), Document::AgentHead(head.clone()));
        if let Some(definition) = definition {
            self.write_document(
                &join(&path, "definition.json"),
                Document::AgentDefinition(definition.clone()),
            );
        }
        self.create_file(&join(&path, "COMMITTED"), b"");
        path
    }

    fn create_agent(&mut self, name: &str, head: &AgentHeadDoc, definition: &AgentDefinitionDoc) {
        self.create_file(&format!("reservations/agents/{name}"), b"");
        self.create_directory(&format!("agents/{name}"));
        self.create_file(&format!("agents/{name}/PUBLISHED"), b"");
        self.create_directory(&format!("agents/{name}/generations"));
        self.create_agent_generation(name, GENERATION_ONE, head, Some(definition));
    }

    fn create_valid_g1_agent(&mut self) {
        self.create_agent(AGENT_ONE, &agent_head(), &agent_definition());
    }

    fn create_unpublished_agent(
        &mut self,
        name: &str,
        generations: bool,
        generation: bool,
        head: Option<&AgentHeadDoc>,
        definition: Option<&AgentDefinitionDoc>,
        committed: bool,
    ) -> String {
        self.create_file(&format!("reservations/agents/{name}"), b"");
        let entity = format!("agents/{name}");
        self.create_directory(&entity);
        if generations {
            self.create_directory(&join(&entity, "generations"));
            if generation {
                let path = format!("{entity}/generations/{GENERATION_ONE}");
                self.create_directory(&path);
                if let Some(head) = head {
                    self.write_document(
                        &join(&path, "head.json"),
                        Document::AgentHead(head.clone()),
                    );
                }
                if let Some(definition) = definition {
                    self.write_document(
                        &join(&path, "definition.json"),
                        Document::AgentDefinition(definition.clone()),
                    );
                }
                if committed {
                    self.create_file(&join(&path, "COMMITTED"), b"");
                }
            }
        }
        entity
    }

    fn create_session_generation(
        &mut self,
        name: &str,
        generation: &str,
        head: &SessionHeadDoc,
        definition: Option<&SessionDefinitionDoc>,
    ) -> String {
        let path = format!("sessions/{name}/generations/{generation}");
        self.create_directory(&path);
        self.write_document(
            &join(&path, "head.json"),
            Document::SessionHead(head.clone()),
        );
        if let Some(definition) = definition {
            self.write_document(
                &join(&path, "definition.json"),
                Document::SessionDefinition(definition.clone()),
            );
        }
        self.create_file(&join(&path, "COMMITTED"), b"");
        path
    }

    fn create_session(
        &mut self,
        name: &str,
        head: &SessionHeadDoc,
        definition: &SessionDefinitionDoc,
    ) {
        self.create_file(&format!("reservations/sessions/{name}"), b"");
        self.create_directory(&format!("sessions/{name}"));
        self.create_file(&format!("sessions/{name}/PUBLISHED"), b"");
        self.create_file(
            &format!("sessions/{name}/conversation.jsonl"),
            b"conversation is opaque during store recovery",
        );
        self.create_directory(&format!("sessions/{name}/generations"));
        self.create_session_generation(name, GENERATION_ONE, head, Some(definition));
    }

    fn create_valid_g1_session(&mut self) {
        self.create_session(SESSION_ONE, &session_head(), &session_definition());
    }

    fn create_unpublished_session(
        &mut self,
        name: &str,
        generations: bool,
        generation: bool,
        documents: Option<(&SessionHeadDoc, Option<&SessionDefinitionDoc>)>,
        committed: bool,
        conversation: Option<&[u8]>,
    ) -> String {
        self.create_file(&format!("reservations/sessions/{name}"), b"");
        let entity = format!("sessions/{name}");
        self.create_directory(&entity);
        if let Some(conversation) = conversation {
            self.create_file(&join(&entity, "conversation.jsonl"), conversation);
        }
        if generations {
            self.create_directory(&join(&entity, "generations"));
            if generation {
                let path = format!("{entity}/generations/{GENERATION_ONE}");
                self.create_directory(&path);
                if let Some((head, definition)) = documents {
                    self.write_document(
                        &join(&path, "head.json"),
                        Document::SessionHead(head.clone()),
                    );
                    if let Some(definition) = definition {
                        self.write_document(
                            &join(&path, "definition.json"),
                            Document::SessionDefinition(definition.clone()),
                        );
                    }
                }
                if committed {
                    self.create_file(&join(&path, "COMMITTED"), b"");
                }
            }
        }
        entity
    }

    fn create_markerless_generation(
        &mut self,
        entity: &str,
        generation: &str,
        head: bool,
        definition: bool,
    ) -> String {
        let path = format!("{entity}/generations/{generation}");
        self.create_directory(&path);
        if head {
            self.create_file(&join(&path, "head.json"), b"interrupted head JSON");
        }
        if definition {
            self.create_file(
                &join(&path, "definition.json"),
                b"interrupted definition JSON",
            );
        }
        path
    }

    fn agent_both_payload_staging() -> (Disk, String) {
        let mut disk = Disk::marked();
        disk.create_valid_g1_agent();
        let staging = disk.create_markerless_generation(
            &format!("agents/{AGENT_ONE}"),
            GENERATION_TWO,
            true,
            true,
        );
        (disk, staging)
    }

    fn unpublished_committed_session_staging() -> (Disk, String) {
        let mut disk = Disk::marked();
        disk.create_valid_g1_agent();
        let entity = disk.create_unpublished_session(
            SESSION_ONE,
            true,
            true,
            Some((&session_head(), Some(&session_definition()))),
            true,
            Some(b"header"),
        );
        (disk, entity)
    }
}

const SMALL: RecoveryCaps = RecoveryCaps {
    agent_reservations: 1,
    session_reservations: 1,
    root_agents: 1,
    root_sessions: 1,
    generations: 1,
};

fn assert_fails(result: Result<OpenRoot, DurableOpenError>, error: DurableOpenError) {
    match result {
        Ok(_) => panic!("the store opened"),
        Err(actual) => assert_eq!(actual, error),
    }
}

fn assert_corrupt(result: Result<OpenRoot, DurableOpenError>) {
    assert_fails(result, DurableOpenError::DurableStateCorrupt);
}

fn key_of(kind: EntityKind, id: u128) -> EntityKey {
    EntityKey { kind, id }
}

// ---------------------------------------------------------------------------------------------
// Opening a root
// ---------------------------------------------------------------------------------------------

fn assert_empty_store_scaffold(disk: &Disk) {
    assert_eq!(
        disk.children(""),
        [LOCK_FILE, FORMAT_MARKER, "agents", "reservations", "sessions"]
    );
    assert_eq!(disk.nodes[FORMAT_MARKER].bytes, b"");
    assert_eq!(disk.children("reservations"), ["agents", "sessions"]);
    for directory in [
        "reservations/agents",
        "reservations/sessions",
        "agents",
        "sessions",
    ] {
        assert!(disk.is_empty(directory));
        assert_eq!(disk.nodes[directory].kind, NodeKind::Directory);
    }
}

#[test]
fn empty_existing_root_and_exact_markerless_scaffold_open() {
    let mut empty = Disk::existing();
    let opened = empty.open().unwrap();
    assert!(opened.catalog.agents.is_empty() && opened.catalog.sessions.is_empty());
    assert!(opened.agent_reservations.is_empty() && opened.session_reservations.is_empty());
    assert_empty_store_scaffold(&empty);

    let mut scaffold = Disk::marked();
    scaffold.remove(FORMAT_MARKER);
    assert!(scaffold.open().is_ok());
    assert_empty_store_scaffold(&scaffold);
}

#[test]
fn a_missing_root_is_created_and_marked_last() {
    let mut disk = Disk::without_root();
    assert!(disk.open().is_ok());
    assert_empty_store_scaffold(&disk);
    assert_eq!(
        disk.operations,
        [
            "create ",
            "create .minicore.lock",
            "create reservations",
            "sync ",
            "create reservations/agents",
            "sync reservations",
            "create reservations/sessions",
            "sync reservations",
            "create agents",
            "sync ",
            "create sessions",
            "sync ",
            "create MINICORE_STORE_V1",
            "sync MINICORE_STORE_V1",
            "sync ",
        ]
    );
    assert!(disk.open().is_ok());
    assert!(disk.operations.is_empty());
}

#[test]
fn format_marker_and_scaffold_have_exact_final_contents_and_modes() {
    let mut disk = Disk::without_root();
    disk.syncs_directories = false;
    let opened = disk.open().unwrap();
    assert_eq!(opened.directory_sync, DirectorySync::Unsupported);
    assert_empty_store_scaffold(&disk);
    for (path, node) in &disk.nodes {
        let expected = if node.kind == NodeKind::Directory {
            0o700
        } else {
            0o600
        };
        assert_eq!(node.mode & 0o7777, expected, "{path}");
    }
    assert!(!disk.operations.contains(&"sync ".to_owned()));
}

#[test]
fn existing_root_with_wrong_unix_mode_is_storage_unavailable() {
    let mut disk = Disk::existing();
    disk.set_mode("", 0o040755);
    assert_fails(disk.open(), DurableOpenError::StorageUnavailable);
    assert!(disk.is_empty(""));
}

#[test]
fn markerless_recognized_entries_with_wrong_unix_modes_are_unsupported() {
    for (path, mode) in [
        (LOCK_FILE, 0o100644),
        ("reservations", 0o040755),
        ("reservations/agents", 0o040755),
        ("reservations/sessions", 0o040755),
        ("agents", 0o040755),
        ("sessions", 0o040755),
    ] {
        let mut disk = Disk::marked();
        disk.remove(FORMAT_MARKER);
        disk.set_mode(path, mode);
        assert_fails(disk.open(), DurableOpenError::UnsupportedStoreFormat);
        assert!(!disk.holds(FORMAT_MARKER));
    }
}

#[test]
fn marked_recognized_entries_with_wrong_unix_modes_are_corrupt() {
    for (path, mode) in [
        (LOCK_FILE, 0o100644),
        (FORMAT_MARKER, 0o100644),
        ("reservations", 0o040755),
        ("reservations/agents", 0o040755),
        ("reservations/sessions", 0o040755),
        ("agents", 0o040755),
        ("sessions", 0o040755),
    ] {
        let mut disk = Disk::marked();
        disk.set_mode(path, mode);
        assert_corrupt(disk.open());
    }
}

#[test]
fn markerless_unknown_nonempty_root_is_unsupported_without_deleting_content() {
    let mut disk = Disk::existing();
    disk.create_file("keep", b"content");
    assert_fails(disk.open(), DurableOpenError::UnsupportedStoreFormat);
    assert_eq!(disk.nodes["keep"].bytes, b"content");
    assert!(!disk.holds(FORMAT_MARKER));
}

#[test]
fn markerless_collections_must_be_empty() {
    for path in ["reservations/agents", "reservations/sessions", "agents", "sessions"] {
        let mut disk = Disk::marked();
        disk.remove(FORMAT_MARKER);
        disk.create_file(&join(path, "entry"), b"");
        assert_fails(disk.open(), DurableOpenError::UnsupportedStoreFormat);
        assert!(!disk.holds(FORMAT_MARKER));
    }
    let mut disk = Disk::marked();
    disk.remove(FORMAT_MARKER);
    disk.remove("reservations/agents");
    disk.create_file("reservations/other", b"");
    assert_fails(disk.open(), DurableOpenError::UnsupportedStoreFormat);
}

#[test]
fn marker_present_root_missing_a_fixed_directory_is_corrupt() {
    for missing in ["reservations", "agents", "sessions"] {
        let mut disk = Disk::marked();
        disk.nodes
            .retain(|path, _| path != missing && !path.starts_with(&format!("{missing}/")));
        assert_corrupt(disk.open());
        assert!(!disk.holds(missing), "a marked root is never completed");
    }
    for missing in ["reservations/agents", "reservations/sessions"] {
        let mut disk = Disk::marked();
        disk.remove(missing);
        assert_corrupt(disk.open());
        assert!(!disk.holds(missing));
    }
}

#[test]
fn marker_present_root_never_bootstraps_a_missing_permanent_lock() {
    let mut disk = Disk::marked();
    disk.remove(LOCK_FILE);
    assert_corrupt(disk.open());
    assert!(!disk.holds(LOCK_FILE));
}

#[test]
fn marker_present_entity_or_reservation_entry_is_corrupt() {
    for path in [
        "agents/entry",
        "sessions/entry",
        "reservations/agents/entry",
        "reservations/sessions/entry",
    ] {
        let mut disk = Disk::marked();
        disk.create_file(path, b"");
        assert_corrupt(disk.open());
        assert!(disk.holds(path));
    }
}

#[test]
fn permanent_lock_file_survives_shutdown_and_reopen_without_replacement() {
    let mut disk = Disk::without_root();
    assert!(disk.open().is_ok());
    let inode = disk.nodes[LOCK_FILE].inode;
    disk.held = true;
    assert_fails(disk.open(), DurableOpenError::StoreInUse);
    disk.held = false;
    assert!(disk.open().is_ok());
    assert_eq!(disk.nodes[LOCK_FILE].inode, inode);
}

#[test]
fn root_direct_cap_plus_one_precedes_markerless_format_classification() {
    let mut disk = Disk::existing();
    for i in 0..6 {
        disk.create_file(&format!("foreign-{i}"), b"");
    }
    assert_fails(disk.open(), DurableOpenError::DurableStateTooLarge);
    assert!(disk.holds("foreign-0"));
}

#[test]
fn reservations_cap_plus_one_precedes_markerless_format_classification() {
    let mut disk = Disk::existing();
    disk.create_directory("reservations");
    for i in 0..3 {
        disk.create_file(&format!("reservations/foreign-{i}"), b"");
    }
    assert_fails(disk.open(), DurableOpenError::DurableStateTooLarge);
    assert!(disk.holds("reservations/foreign-0"));
}

#[test]
fn an_unreadable_root_or_lock_is_unavailable() {
    for path in ["", LOCK_FILE, FORMAT_MARKER] {
        let mut disk = Disk::marked();
        disk.unreadable.insert(path.to_owned());
        assert_fails(disk.open(), DurableOpenError::StorageUnavailable);
    }
}

// ---------------------------------------------------------------------------------------------
// Invisible entities
// ---------------------------------------------------------------------------------------------

fn reservation_of(entity: &str) -> String {
    format!("reservations/{entity}")
}

fn first_generation(entity: &str) -> String {
    format!("{entity}/generations/{GENERATION_ONE}")
}

#[test]
fn marked_empty_store_opens_with_an_empty_private_agent_catalog() {
    let mut disk = Disk::marked();
    let catalog = DurableCatalog::open(disk.open().unwrap().catalog);
    assert!(catalog.agent_head(agent(AGENT_ONE)).is_none());
}

#[test]
fn exact_published_committed_g1_agent_recovers_as_the_same_arc() {
    let mut disk = Disk::marked();
    disk.create_valid_g1_agent();
    let catalog = DurableCatalog::open(disk.open().unwrap().catalog);
    let id = agent(AGENT_ONE);
    let first = Arc::clone(catalog.agent_head(id).unwrap());
    let second = Arc::clone(catalog.agent_head(id).unwrap());
    assert!(Arc::ptr_eq(&first, &second));
    assert_eq!(first.agent_id(), id);
    assert_eq!(first.storage_generation().get(), 1);
    assert_eq!(first.current_definition_revision().get(), 1);
    assert_eq!(first.current_definition_storage_generation().get(), 1);
    assert_eq!(first.metadata().revision.get(), 1);
    assert_eq!(first.status(), AgentStatus::Enabled);
    let definition = Arc::clone(catalog.agent_current_definition(id).unwrap());
    let same_definition = Arc::clone(catalog.agent_current_definition(id).unwrap());
    assert!(Arc::ptr_eq(&definition, &same_definition));
    assert_eq!(definition.revision.get(), 1);
    assert!(catalog.contains_agent_definition(id, AgentRevision::new(1).unwrap()));
    assert!(!catalog.contains_agent_definition(id, AgentRevision::new(2).unwrap()));
    assert!(catalog.agent_head(agent(AGENT_TWO)).is_none());
}

#[test]
fn unpublished_committed_g1_agent_is_invisible_and_cleaned_whole() {
    let mut disk = Disk::marked();
    disk.create_valid_g1_agent();
    let entity = format!("agents/{AGENT_ONE}");
    disk.remove(&join(&entity, "PUBLISHED"));
    assert!(disk.open().unwrap().catalog.agents.is_empty());
    assert!(!disk.holds(&entity));
    assert!(disk.holds(&reservation_of(&entity)));
    let reopened = disk.open().unwrap();
    assert!(reopened.catalog.agents.is_empty());
    assert!(reopened
        .agent_reservations
        .contains(&agent(AGENT_ONE).value()));
}

#[test]
fn unpublished_agent_exact_shape_matrix_is_invisible_and_preserves_reservation() {
    for (generations, generation, head, definition, committed) in [
        (false, false, false, false, false),
        (true, false, false, false, false),
        (true, true, false, false, false),
        (true, true, true, false, false),
        (true, true, false, true, false),
        (true, true, true, true, false),
        (true, true, true, true, true),
    ] {
        let mut disk = Disk::marked();
        let entity = disk.create_unpublished_agent(
            AGENT_ONE,
            generations,
            generation,
            head.then(agent_head).as_ref(),
            definition.then(agent_definition).as_ref(),
            committed,
        );
        if !committed && head {
            disk.create_file(
                &join(&first_generation(&entity), "head.json"),
                b"partial Agent head",
            );
        }
        if !committed && definition {
            disk.create_file(
                &join(&first_generation(&entity), "definition.json"),
                b"partial Agent definition",
            );
        }
        assert!(disk.open().unwrap().catalog.agents.is_empty());
        assert!(!disk.holds(&entity));
        assert!(disk.holds(&reservation_of(&entity)));
        assert!(disk.open().is_ok());
        assert!(disk.operations.is_empty());
    }
}

#[test]
fn unpublished_session_precommit_and_committed_shapes_are_invisible_after_strict_recovery() {
    for (generations, generation, head, definition, conversation) in [
        (false, false, false, false, None),
        (true, false, false, false, None),
        (true, true, false, false, None),
        (
            true,
            true,
            true,
            false,
            Some(b"\xff precommit conversation bytes are never parsed".as_slice()),
        ),
        (true, true, true, true, Some(b"not a JSONL Header".as_slice())),
    ] {
        let mut disk = Disk::marked();
        let entity = disk.create_unpublished_session(
            SESSION_ONE,
            generations,
            generation,
            None,
            false,
            conversation,
        );
        if head {
            disk.create_file(
                &join(&first_generation(&entity), "head.json"),
                b"partial Session head",
            );
        }
        if definition {
            disk.create_file(
                &join(&first_generation(&entity), "definition.json"),
                b"partial Session definition",
            );
        }
        assert!(disk.open().unwrap().catalog.sessions.is_empty());
        assert!(!disk.holds(&entity));
        assert!(disk.expected.is_empty(), "staging is never parsed");
    }

    let (mut ordinary, entity) = Disk::unpublished_committed_session_staging();
    assert!(ordinary.open().unwrap().catalog.sessions.is_empty());
    assert!(!ordinary.holds(&entity));
    assert_eq!(ordinary.expected.len(), 1);
    let expectation = ordinary.expected[0];
    assert_eq!(expectation.version, 1);
    assert_eq!(expectation.session_id, session(SESSION_ONE));
    assert_eq!(expectation.created_at, time(SESSION_CREATED));
    assert_eq!(expectation.agent.agent_id, agent(AGENT_ONE));
    assert_eq!(expectation.agent.revision.get(), 1);
    assert_eq!(expectation.definition_revision.get(), 1);
    assert!(expectation.shape == UnpublishedConversationRecoveryShape::OrdinaryHeaderOnly);

    for (name, fork) in [
        (SESSION_TWO, fork_of(SESSION_ONE)),
        (
            SESSION_THREE,
            Fork {
                anchor: Anchor::Genesis,
                ..fork_of(SESSION_ONE)
            },
        ),
    ] {
        let mut disk = Disk::marked();
        disk.create_valid_g1_agent();
        disk.create_valid_g1_session();
        let entity = disk.create_unpublished_session(
            name,
            true,
            true,
            Some((&fork_head(name, fork), Some(&fork_definition(name)))),
            true,
            Some(b"fork"),
        );
        let opened = disk.open().unwrap();
        assert_eq!(opened.catalog.sessions.len(), 1);
        assert!(opened
            .catalog
            .sessions
            .contains_key(&session(SESSION_ONE).value()));
        assert!(!disk.holds(&entity));
        assert!(
            disk.expected[0].shape
                == UnpublishedConversationRecoveryShape::ForkCanonicalLinearFile
        );
    }
}

#[test]
fn unpublished_committed_sessions_apply_the_current_enabled_agent_gate() {
    let (mut stale, entity) = Disk::unpublished_committed_session_staging();
    stale.create_agent_generation(
        AGENT_ONE,
        GENERATION_TWO,
        &agent_head_definition_g2(),
        Some(&agent_definition_g2()),
    );
    assert_corrupt(stale.open());
    assert!(stale.holds(&entity));

    for status in [AgentStatus::Disabled, AgentStatus::Deleted] {
        let head = AgentHeadDoc {
            status,
            ..agent_head_status_g2()
        };
        let (mut ordinary, entity) = Disk::unpublished_committed_session_staging();
        ordinary.create_agent_generation(AGENT_ONE, GENERATION_TWO, &head, None);
        assert_corrupt(ordinary.open());
        assert!(ordinary.holds(&entity));

        let mut fork = Disk::marked();
        fork.create_valid_g1_agent();
        fork.create_agent_generation(AGENT_ONE, GENERATION_TWO, &head, None);
        fork.create_valid_g1_session();
        let entity = fork.create_unpublished_session(
            SESSION_TWO,
            true,
            true,
            Some((
                &fork_head(SESSION_TWO, fork_of(SESSION_ONE)),
                Some(&fork_definition(SESSION_TWO)),
            )),
            true,
            Some(b"fork"),
        );
        assert_corrupt(fork.open());
        assert!(fork.holds(&entity));
    }

    let mut retained = Disk::marked();
    retained.create_valid_g1_agent();
    retained.create_agent_generation(
        AGENT_ONE,
        GENERATION_TWO,
        &agent_head_definition_g2(),
        Some(&agent_definition_g2()),
    );
    retained.create_valid_g1_session();
    let entity = retained.create_unpublished_session(
        SESSION_TWO,
        true,
        true,
        Some((
            &fork_head(SESSION_TWO, fork_of(SESSION_ONE)),
            Some(&fork_definition(SESSION_TWO)),
        )),
        true,
        Some(b"fork"),
    );
    assert!(retained.open().is_ok());
    assert!(!retained.holds(&entity));
}

#[test]
fn malformed_unpublished_entities_and_conversations_fail_closed_without_cleanup() {
    let mut unknown = Disk::marked();
    let entity = unknown.create_unpublished_agent(AGENT_ONE, true, true, None, None, false);
    unknown.create_file(&join(&first_generation(&entity), "unknown"), b"");
    assert_corrupt(unknown.open());
    assert!(unknown.holds(&entity));

    let mut second = Disk::marked();
    let entity = second.create_unpublished_agent(AGENT_ONE, true, true, None, None, false);
    second.rename(
        &format!("{entity}/generations/{GENERATION_ONE}"),
        &format!("{entity}/generations/{GENERATION_TWO}"),
    );
    assert_corrupt(second.open());
    assert!(second.holds(&entity));

    let mut unreserved = Disk::marked();
    let entity = unreserved.create_unpublished_agent(AGENT_ONE, false, false, None, None, false);
    unreserved.remove(&reservation_of(&entity));
    assert_corrupt(unreserved.open());
    assert!(unreserved.holds(&entity));

    let mut bare = Disk::marked();
    let entity = bare.create_unpublished_session(
        SESSION_ONE,
        false,
        false,
        None,
        false,
        Some(b"opaque bytes"),
    );
    assert_corrupt(bare.open());
    assert!(bare.holds(&entity));

    for (name, conversation) in [
        ("missing", None),
        ("invalid header", Some(b"not JSONL".as_slice())),
        (
            "partial tail",
            Some(b"{\"type\":\"session_header\"".as_slice()),
        ),
    ] {
        let mut disk = Disk::marked();
        disk.create_valid_g1_agent();
        let entity = disk.create_unpublished_session(
            SESSION_ONE,
            true,
            true,
            Some((&session_head(), Some(&session_definition()))),
            true,
            conversation,
        );
        disk.conversation = Err(UnpublishedConversationRecoveryError::Corrupt);
        assert_corrupt(disk.open());
        assert_eq!(
            disk.expected.len(),
            usize::from(conversation.is_some()),
            "{name}"
        );
        assert!(disk.holds(&entity), "{name}");
        assert_eq!(
            disk.nodes
                .get(&join(&entity, "conversation.jsonl"))
                .map(|node| node.bytes.as_slice()),
            conversation,
            "{name}"
        );
    }

    let mut oversized = Disk::marked();
    let entity =
        oversized.create_unpublished_session(SESSION_ONE, true, true, None, false, Some(b""));
    oversized
        .nodes
        .get_mut(&join(&entity, "conversation.jsonl"))
        .unwrap()
        .reported = Some(1_073_741_825);
    assert_fails(oversized.open(), DurableOpenError::DurableStateTooLarge);
    assert!(oversized.holds(&entity));
}

#[test]
fn conversation_scan_failures_are_reported_as_they_are() {
    for (scan, error) in [
        (
            UnpublishedConversationRecoveryError::TooLarge,
            DurableOpenError::DurableStateTooLarge,
        ),
        (
            UnpublishedConversationRecoveryError::Corrupt,
            DurableOpenError::DurableStateCorrupt,
        ),
        (
            UnpublishedConversationRecoveryError::Unavailable,
            DurableOpenError::StorageUnavailable,
        ),
    ] {
        let (mut disk, entity) = Disk::unpublished_committed_session_staging();
        disk.conversation = Err(scan);
        assert_fails(disk.open(), error);
        assert!(disk.holds(&entity));
    }
}

#[test]
fn oversized_unpublished_conversation_dominates_an_invalid_committed_marker() {
    let (mut disk, entity) = Disk::unpublished_committed_session_staging();
    disk.create_file(&join(&first_generation(&entity), "COMMITTED"), b"not-zero");
    disk.nodes
        .get_mut(&join(&entity, "conversation.jsonl"))
        .unwrap()
        .reported = Some(1_073_741_825);
    assert_fails(disk.open(), DurableOpenError::DurableStateTooLarge);
    assert!(disk.holds(&entity));
}

#[test]
fn multiple_operation_candidates_are_corrupt_and_never_partly_cleaned() {
    let mut two_agents = Disk::marked();
    let first = two_agents.create_unpublished_agent(AGENT_ONE, false, false, None, None, false);
    let second = two_agents.create_unpublished_agent(AGENT_TWO, false, false, None, None, false);
    assert_corrupt(two_agents.open());
    assert!(two_agents.holds(&first) && two_agents.holds(&second));

    let mut both = Disk::marked();
    let first = both.create_unpublished_agent(AGENT_ONE, false, false, None, None, false);
    let second = both.create_unpublished_session(SESSION_ONE, false, false, None, false, None);
    assert_corrupt(both.open());
    assert!(both.holds(&first) && both.holds(&second));

    let mut tail_and_entity = Disk::marked();
    tail_and_entity.create_valid_g1_agent();
    let tail = tail_and_entity.create_markerless_generation(
        &format!("agents/{AGENT_ONE}"),
        GENERATION_TWO,
        false,
        false,
    );
    let entity =
        tail_and_entity.create_unpublished_session(SESSION_ONE, false, false, None, false, None);
    assert_corrupt(tail_and_entity.open());
    assert!(tail_and_entity.holds(&tail) && tail_and_entity.holds(&entity));
}

#[test]
fn candidate_multiplicity_never_masks_a_later_nested_generation_cap() {
    let mut disk = Disk::marked();
    let candidate = disk.create_unpublished_agent(AGENT_ONE, false, false, None, None, false);
    let oversized = disk.create_unpublished_session(SESSION_ONE, true, true, None, false, None);
    disk.create_directory(&format!("{oversized}/generations/{GENERATION_TWO}"));
    assert!(matches!(
        disk.recover(SMALL),
        Err(DurableOpenError::DurableStateTooLarge)
    ));
    assert!(disk.holds(&candidate) && disk.holds(&oversized));
}

#[test]
fn later_session_generation_caps_dominate_each_earlier_agent_entity_physical_error() {
    for kind in ["wrong marker type", "invalid marker", "unknown child"] {
        let mut disk = Disk::marked();
        let entity = disk.create_unpublished_agent(AGENT_ONE, false, false, None, None, false);
        match kind {
            "wrong marker type" => disk.create_directory(&join(&entity, "PUBLISHED")),
            "invalid marker" => disk.create_file(&join(&entity, "PUBLISHED"), b"nonzero"),
            "unknown child" => disk.create_file(&join(&entity, "unknown"), b""),
            _ => unreachable!("the table is closed"),
        }
        let other = disk.create_unpublished_session(SESSION_ONE, true, true, None, false, None);
        disk.create_directory(&format!("{other}/generations/{GENERATION_TWO}"));
        assert!(matches!(
            disk.recover(SMALL),
            Err(DurableOpenError::DurableStateTooLarge)
        ));
    }
}

#[test]
fn oversized_g1_document_dominates_an_invalid_committed_marker() {
    let mut disk = Disk::marked();
    let entity = disk.create_unpublished_agent(
        AGENT_ONE,
        true,
        true,
        Some(&agent_head()),
        Some(&agent_definition()),
        false,
    );
    let head = join(&first_generation(&entity), "head.json");
    disk.create_file(&head, &vec![b'x'; 1_048_577]);
    disk.create_file(&join(&first_generation(&entity), "COMMITTED"), b"nonzero");
    assert_fails(disk.open(), DurableOpenError::DurableStateTooLarge);
    assert!(disk.holds(&entity));
}

#[test]
fn later_published_fork_validation_failure_keeps_an_unpublished_candidate() {
    let mut disk = Disk::marked();
    disk.create_valid_g1_agent();
    let candidate = disk.create_unpublished_agent(AGENT_TWO, false, false, None, None, false);
    let fork = Fork {
        anchor: Anchor::Genesis,
        ..fork_of(SESSION_TWO)
    };
    disk.create_session(
        SESSION_ONE,
        &fork_head(SESSION_ONE, fork),
        &fork_definition(SESSION_ONE),
    );
    assert_corrupt(disk.open());
    assert!(disk.holds(&candidate));
}

#[test]
fn unpublished_cleanup_revalidation_rejects_published_or_conversation_drift_without_deleting() {
    let mut published = Disk::marked();
    let entity = published.create_unpublished_agent(AGENT_ONE, false, false, None, None, false);
    let plan = published.entity_plan();
    published.create_file(&join(&entity, "PUBLISHED"), b"");
    assert_eq!(
        published.finalize_entity(&plan),
        Err(DurableOpenError::DurableStateCorrupt)
    );
    assert!(published.holds(&entity));

    let mut conversation = Disk::marked();
    let entity = conversation.create_unpublished_session(
        SESSION_ONE,
        true,
        true,
        None,
        false,
        Some(b"opaque first bytes"),
    );
    conversation.create_file(
        &join(&first_generation(&entity), "head.json"),
        b"partial head",
    );
    let plan = conversation.entity_plan();
    conversation.create_file(
        &join(&entity, "conversation.jsonl"),
        b"a deliberately much longer opaque conversation value",
    );
    assert_eq!(
        conversation.finalize_entity(&plan),
        Err(DurableOpenError::DurableStateCorrupt)
    );
    assert!(conversation.holds(&entity));
}

#[test]
fn whole_entity_cleanup_revalidation_rejects_same_shape_node_replacements() {
    let (mut committed, entity) = Disk::unpublished_committed_session_staging();
    let plan = committed.entity_plan();
    committed.replace(&join(&first_generation(&entity), "COMMITTED"));
    assert_eq!(
        committed.finalize_entity(&plan),
        Err(DurableOpenError::DurableStateCorrupt)
    );
    assert!(committed.holds(&entity));

    for replaced in [
        first_generation(&format!("agents/{AGENT_ONE}")),
        format!("agents/{AGENT_ONE}/generations"),
        format!("agents/{AGENT_ONE}"),
        format!("reservations/agents/{AGENT_ONE}"),
    ] {
        let mut disk = Disk::marked();
        let entity = disk.create_unpublished_agent(AGENT_ONE, true, true, None, None, false);
        let plan = disk.entity_plan();
        disk.replace(&replaced);
        let before = disk.nodes.clone();
        assert_eq!(
            disk.finalize_entity(&plan),
            Err(DurableOpenError::DurableStateCorrupt)
        );
        assert!(disk.holds(&entity));
        assert!(disk.nodes == before);
    }
}

#[test]
fn whole_entity_cleanup_revalidation_reuses_its_initial_generation_collection_cap() {
    let mut disk = Disk::marked();
    let entity = disk.create_unpublished_agent(AGENT_ONE, true, true, None, None, false);
    let plan = match disk.recover(SMALL).ok().and_then(|candidate| candidate.cleanup) {
        Some(DeferredCleanup::UnpublishedEntity(plan)) => plan,
        _ => panic!("the candidate is whole-entity cleanup"),
    };
    assert_eq!(plan.generation_collection_cap, 1);
    disk.create_directory(&format!("{entity}/generations/{GENERATION_TWO}"));
    assert_eq!(
        disk.finalize_entity(&plan),
        Err(DurableOpenError::DurableStateTooLarge)
    );
    assert!(disk.holds(&entity));
}

#[test]
fn physical_document_reader_is_bounded_and_redacts_its_failures() {
    let mut disk = Disk::existing();
    disk.create_file("private-document-name", &vec![b'x'; 1_048_576]);
    assert_eq!(
        read_durable_document(
            disk.read_document("private-document-name"),
            StoreLimits::production()
        )
        .map(|bytes| bytes.len()),
        Ok(1_048_576)
    );
    disk.create_file("private-document-name-plus-one", &vec![b'x'; 1_048_577]);
    let error = read_durable_document(
        disk.read_document("private-document-name-plus-one"),
        StoreLimits::production(),
    )
    .unwrap_err();
    assert_eq!(error, DurableOpenError::DurableStateTooLarge);
    let debug = format!("{error:?}");
    assert!(!debug.contains("private-document-name"));
    assert!(!debug.contains("1048577"));
}

#[test]
fn all_entity_namespaces_are_inventoried_before_generation_semantics() {
    let mut collection = Disk::marked();
    collection.create_valid_g1_agent();
    collection.create_file(
        &join(&first_generation(&format!("agents/{AGENT_ONE}")), "head.json"),
        b"corrupt Agent head\n",
    );
    collection.create_file("sessions/invalid-one", b"");
    collection.create_file("sessions/invalid-two", b"");
    assert!(matches!(
        collection.recover(SMALL),
        Err(DurableOpenError::DurableStateTooLarge)
    ));

    let mut entity = Disk::marked();
    entity.create_valid_g1_agent();
    entity.create_session(
        SESSION_ONE,
        &SessionHeadDoc {
            lifecycle: SessionLifecycle::Archived,
            ..session_head()
        },
        &session_definition(),
    );
    entity.create_file(&format!("reservations/sessions/{SESSION_TWO}"), b"");
    entity.create_directory(&format!("sessions/{SESSION_TWO}"));
    for name in ["one", "two", "three", "four"] {
        entity.create_file(&format!("sessions/{SESSION_TWO}/{name}"), b"");
    }
    assert!(matches!(
        entity.recover(RecoveryCaps::production()),
        Err(DurableOpenError::DurableStateTooLarge)
    ));
}

#[test]
fn recovery_collection_caps_precede_agent_name_or_shape_classification() {
    let mut reservations = Disk::marked();
    reservations.create_file("reservations/agents/invalid-one", b"");
    reservations.create_file("reservations/agents/invalid-two", b"");
    assert!(matches!(
        reservations.recover(SMALL),
        Err(DurableOpenError::DurableStateTooLarge)
    ));

    let mut entities = Disk::marked();
    entities.create_directory("agents/invalid-one");
    entities.create_directory("agents/invalid-two");
    assert!(matches!(
        entities.recover(SMALL),
        Err(DurableOpenError::DurableStateTooLarge)
    ));

    let mut generations = Disk::marked();
    generations.create_valid_g1_agent();
    generations.create_directory(&format!("agents/{AGENT_ONE}/generations/invalid-second"));
    assert!(matches!(
        generations.recover(SMALL),
        Err(DurableOpenError::DurableStateTooLarge)
    ));
}

#[test]
fn cleanup_revalidation_rejects_marker_child_and_payload_shape_changes_without_deleting() {
    let mut disk = Disk::marked();
    disk.create_valid_g1_agent();
    let staging = disk.create_markerless_generation(
        &format!("agents/{AGENT_ONE}"),
        GENERATION_TWO,
        false,
        false,
    );
    let plan = disk.generation_plan();
    assert!(!plan.has_head && !plan.has_definition);
    let debug = format!("{:?}", plan.redacted());
    assert!(!debug.contains(AGENT_ONE));

    for drift in ["COMMITTED", "unknown", "head.json"] {
        if drift == "head.json" {
            disk.write_document(
                &join(&staging, drift),
                Document::AgentHead(agent_head_metadata_g2()),
            );
        } else {
            disk.create_file(&join(&staging, drift), b"");
        }
        assert_eq!(
            disk.finalize_generation(&plan),
            Err(DurableOpenError::DurableStateCorrupt)
        );
        assert!(disk.holds(&join(&staging, drift)));
        disk.remove(&join(&staging, drift));
    }

    disk.write_document(
        &join(&staging, "head.json"),
        Document::AgentHead(agent_head_metadata_g2()),
    );
    disk.write_document(
        &join(&staging, "definition.json"),
        Document::AgentDefinition(agent_definition_g2()),
    );
    let plan = disk.generation_plan();
    assert!(plan.has_head && plan.has_definition);
    disk.remove(&join(&staging, "head.json"));
    assert_eq!(
        disk.finalize_generation(&plan),
        Err(DurableOpenError::DurableStateCorrupt)
    );
    assert!(disk.holds(&join(&staging, "definition.json")));
}

#[test]
fn a_printed_cleanup_shows_its_facts_and_no_identity() {
    for (head, definition) in [(false, false), (true, false), (false, true), (true, true)] {
        let mut disk = Disk::marked();
        disk.create_valid_g1_agent();
        disk.create_markerless_generation(
            &format!("agents/{AGENT_ONE}"),
            GENERATION_TWO,
            head,
            definition,
        );
        let shown = DeferredCleanup::TrailingGeneration(disk.generation_plan()).redacted();
        let RedactedCleanup::TrailingGeneration(facts) = shown else {
            panic!("a trailing generation is shown as one");
        };
        assert_eq!((facts.has_head, facts.has_definition), (head, definition));
        assert!(!format!("{shown:?}").contains(AGENT_ONE));
    }

    let (mut disk, _) = Disk::unpublished_committed_session_staging();
    let plan = disk.entity_plan();
    let shown = DeferredCleanup::UnpublishedEntity(plan).redacted();
    let RedactedCleanup::UnpublishedEntity(facts) = shown else {
        panic!("an unpublished entity is shown as one");
    };
    assert_eq!(facts.entity_entry_cap, EntityKind::Session.entity_entry_cap());
    assert_eq!(facts.generation_collection_cap, GENERATION_ENTRY_CAP);
    assert!(facts.has_generations && facts.has_generation && facts.has_conversation);
    assert!(facts.has_committed && facts.has_head && facts.has_definition);
    assert!(!format!("{shown:?}").contains(SESSION_ONE));

    let mut bare = Disk::marked();
    bare.create_unpublished_agent(AGENT_ONE, true, true, Some(&agent_head()), None, false);
    let facts = bare.entity_plan().redacted();
    assert_eq!(facts.entity_entry_cap, EntityKind::Agent.entity_entry_cap());
    assert!(facts.has_generations && facts.has_generation && facts.has_head);
    assert!(!facts.has_conversation && !facts.has_committed && !facts.has_definition);

    let mut empty = Disk::marked();
    empty.create_unpublished_agent(AGENT_ONE, false, false, None, None, false);
    let facts = empty.entity_plan().redacted();
    assert!(!facts.has_generations && !facts.has_generation && !facts.has_head);
}

/// The generations of the first agent whose documents are read.
fn readable(disk: &Disk) -> Vec<u32> {
    let entity = disk.observe_entity(
        &format!("agents/{AGENT_ONE}"),
        EntityKind::Agent,
        GENERATION_ENTRY_CAP,
    );
    scan_agent_entity(&entity, GENERATION_ENTRY_CAP, StoreLimits::production())
        .ok()
        .unwrap()
        .readable_generations()
        .into_iter()
        .map(StorageGeneration::get)
        .collect()
}

#[test]
fn only_committed_generations_are_read() {
    let (published, _) = Disk::agent_both_payload_staging();
    assert_eq!(readable(&published), [1]);

    let mut two = Disk::marked();
    two.create_valid_g1_agent();
    two.create_agent_generation(AGENT_ONE, GENERATION_TWO, &agent_head_metadata_g2(), None);
    assert_eq!(readable(&two), [1, 2]);

    for (committed, generations) in [(true, vec![1]), (false, vec![])] {
        let mut unpublished = Disk::marked();
        unpublished.create_unpublished_agent(
            AGENT_ONE,
            true,
            true,
            Some(&agent_head()),
            Some(&agent_definition()),
            committed,
        );
        assert_eq!(readable(&unpublished), generations);
    }
}

// ---------------------------------------------------------------------------------------------
// Interrupted removals
// ---------------------------------------------------------------------------------------------

#[test]
fn cleanup_faults_are_persistent_ordered_and_retryable() {
    let entity = format!("agents/{AGENT_ONE}");
    let staging = format!("{entity}/generations/{GENERATION_TWO}");
    let ordered = [
        format!("remove {staging}/definition.json"),
        format!("remove {staging}/head.json"),
        format!("sync {staging}"),
        format!("remove {staging}"),
        format!("sync {entity}/generations"),
    ];

    let (mut faultless, _) = Disk::agent_both_payload_staging();
    let opened = faultless.open().unwrap();
    assert_eq!(opened.directory_sync, DirectorySync::Supported);
    assert_eq!(faultless.operations, ordered);

    for (coordinate, operation) in ordered.iter().enumerate() {
        for when in [When::Before, When::After] {
            let (mut disk, _) = Disk::agent_both_payload_staging();
            disk.faults.push((when, operation.clone()));
            let result = disk.open();
            if when == When::After && coordinate == 3 {
                assert!(result.is_ok(), "an absent readback reconciles the failure");
                assert_eq!(disk.operations, ordered);
            } else {
                assert_fails(result, DurableOpenError::StorageUnavailable);
                assert_eq!(disk.operations, ordered[..=coordinate]);
            }
            let removed = |i: usize| coordinate > i || (coordinate == i && when == When::After);
            assert_eq!(!disk.holds(&join(&staging, "definition.json")), removed(0));
            assert_eq!(!disk.holds(&join(&staging, "head.json")), removed(1));
            assert_eq!(!disk.holds(&staging), removed(3));
            disk.faults.clear();
            assert!(disk.open().is_ok(), "the next open completes the removal");
            assert!(!disk.holds(&staging));
        }
    }
}

#[test]
fn unpublished_entity_cleanup_is_committed_first_ordered_and_retryable_at_every_namespace() {
    let entity = format!("sessions/{SESSION_ONE}");
    let generation = first_generation(&entity);
    let ordered = [
        format!("remove {generation}/COMMITTED"),
        format!("remove {generation}/definition.json"),
        format!("remove {generation}/head.json"),
        format!("remove {entity}/conversation.jsonl"),
        format!("sync {generation}"),
        format!("remove {generation}"),
        format!("sync {entity}/generations"),
        format!("remove {entity}/generations"),
        format!("sync {entity}"),
        format!("remove {entity}"),
        "sync sessions".to_owned(),
    ];

    let (mut faultless, _) = Disk::unpublished_committed_session_staging();
    assert!(faultless.open().is_ok());
    assert!(!faultless.holds(&entity));
    assert!(faultless.holds(&reservation_of(&entity)));
    assert_eq!(faultless.operations, ordered);

    for (coordinate, operation) in ordered.iter().enumerate() {
        for when in [When::Before, When::After] {
            let (mut disk, _) = Disk::unpublished_committed_session_staging();
            disk.faults.push((when, operation.clone()));
            let result = disk.open();
            if when == When::After && [5, 7, 9].contains(&coordinate) {
                assert!(result.is_ok());
            } else {
                assert_fails(result, DurableOpenError::StorageUnavailable);
                assert_eq!(disk.operations, ordered[..=coordinate]);
            }
            disk.faults.clear();
            assert!(disk.open().is_ok(), "an exact retry prefix is left");
            assert!(!disk.holds(&entity));
            assert!(disk.holds(&reservation_of(&entity)));
        }
    }
}

// ---------------------------------------------------------------------------------------------
// Agent chains
// ---------------------------------------------------------------------------------------------

/// A store with one Agent of these generations.
fn agent_chain(later: &[(AgentHeadDoc, Option<AgentDefinitionDoc>)]) -> Disk {
    let mut disk = Disk::marked();
    disk.create_valid_g1_agent();
    for (i, (head, definition)) in later.iter().enumerate() {
        let name = generation(i as u32 + 2).directory_name();
        disk.create_agent_generation(AGENT_ONE, &name, head, definition.as_ref());
    }
    disk
}

fn open_agent_chain(later: &[(AgentHeadDoc, Option<AgentDefinitionDoc>)]) -> DurableCatalog {
    DurableCatalog::open(agent_chain(later).open().unwrap().catalog)
}

fn revision(value: u64) -> AgentRevision {
    AgentRevision::new(value).unwrap()
}

fn at_generation(head: AgentHeadDoc, ordinal: u32) -> AgentHeadDoc {
    AgentHeadDoc {
        generation: ordinal,
        previous: Some(ordinal - 1),
        ..head
    }
}

fn g3_deleted() -> AgentHeadDoc {
    AgentHeadDoc {
        status: AgentStatus::Deleted,
        ..at_generation(agent_head_status_g2(), 3)
    }
}

#[test]
fn valid_g2_metadata_fixture_retains_the_g1_current_definition() {
    let catalog = open_agent_chain(&[(agent_head_metadata_g2(), None)]);
    let id = agent(AGENT_ONE);
    let head = catalog.agent_head(id).unwrap();
    assert_eq!(head.storage_generation().get(), 2);
    assert_eq!(head.metadata().revision.get(), 2);
    assert_eq!(catalog.agent_current_definition(id).unwrap().revision.get(), 1);
    assert!(catalog.contains_agent_definition(id, revision(1)));
    assert!(!catalog.contains_agent_definition(id, revision(2)));
}

#[test]
fn valid_g2_status_fixture_retains_the_g1_current_definition() {
    let catalog = open_agent_chain(&[(agent_head_status_g2(), None)]);
    let id = agent(AGENT_ONE);
    assert_eq!(catalog.agent_head(id).unwrap().storage_generation().get(), 2);
    assert_eq!(catalog.agent_head(id).unwrap().status(), AgentStatus::Disabled);
    assert_eq!(catalog.agent_current_definition(id).unwrap().revision.get(), 1);
}

#[test]
fn metadata_after_definition_retains_the_latest_definition_and_complete_index() {
    let metadata = AgentHeadDoc {
        revision: 2,
        definition_generation: 2,
        ..at_generation(agent_head_metadata_g2(), 3)
    };
    let catalog = open_agent_chain(&[
        (agent_head_definition_g2(), Some(agent_definition_g2())),
        (metadata, None),
    ]);
    let id = agent(AGENT_ONE);
    assert_eq!(catalog.agent_head(id).unwrap().storage_generation().get(), 3);
    assert_eq!(catalog.agent_head(id).unwrap().metadata().revision.get(), 2);
    assert_eq!(catalog.agent_current_definition(id).unwrap().revision.get(), 2);
    assert!(catalog.contains_agent_definition(id, revision(1)));
    assert!(catalog.contains_agent_definition(id, revision(2)));
}

#[test]
fn valid_g3_status_chain_uses_numeric_generation_order_not_creation_order() {
    let mut disk = Disk::marked();
    disk.create_valid_g1_agent();
    disk.create_agent_generation(AGENT_ONE, GENERATION_THREE, &g3_deleted(), None);
    disk.create_agent_generation(AGENT_ONE, GENERATION_TWO, &agent_head_status_g2(), None);
    let mut observation = disk.observe_marked_root(RecoveryCaps::production());
    observation.agents.listing.entries[0]
        .entity
        .generations
        .entries
        .reverse();
    let scan = scan_marked_root(
        &disk.observe_root_entries().entries,
        &observation,
        RecoveryCaps::production(),
        StoreLimits::production(),
    )
    .unwrap();
    let documents = disk.documents(&scan);
    let candidate = match recover_marked_root(scan, documents, GENERATION_ENTRY_CAP) {
        Ok(RecoveryProgress::Complete(candidate)) => candidate,
        _ => panic!("the numeric chain recovers"),
    };
    let catalog = DurableCatalog::open(candidate.catalog);
    let head = catalog.agent_head(agent(AGENT_ONE)).unwrap();
    assert_eq!(head.storage_generation().get(), 3);
    assert_eq!(head.status(), AgentStatus::Deleted);
}

#[test]
fn direct_delete_and_reenable_status_edges_are_valid() {
    let deleted = AgentHeadDoc {
        status: AgentStatus::Deleted,
        ..agent_head_status_g2()
    };
    let catalog = open_agent_chain(&[(deleted, None)]);
    assert_eq!(
        catalog.agent_head(agent(AGENT_ONE)).unwrap().status(),
        AgentStatus::Deleted
    );
    let enabled = AgentHeadDoc {
        status: AgentStatus::Enabled,
        ..at_generation(agent_head_status_g2(), 3)
    };
    let catalog = open_agent_chain(&[(agent_head_status_g2(), None), (enabled, None)]);
    assert_eq!(
        catalog.agent_head(agent(AGENT_ONE)).unwrap().status(),
        AgentStatus::Enabled
    );
}

#[test]
fn definition_rollback_to_nonadjacent_content_is_valid_when_it_changes_from_current() {
    let head = AgentHeadDoc {
        revision: 3,
        definition_generation: 3,
        ..at_generation(agent_head_definition_g2(), 3)
    };
    let definition = AgentDefinitionDoc {
        revision: 3,
        created_at: AGENT_CREATED + 60,
        ..agent_definition()
    };
    let catalog = open_agent_chain(&[
        (agent_head_definition_g2(), Some(agent_definition_g2())),
        (head, Some(definition)),
    ]);
    let id = agent(AGENT_ONE);
    assert_eq!(catalog.agent_current_definition(id).unwrap().revision.get(), 3);
    for value in 1..=3 {
        assert!(catalog.contains_agent_definition(id, revision(value)));
    }
}

#[test]
fn definition_metadata_and_status_canonical_no_ops_are_corrupt() {
    let repeated_definition = AgentDefinitionDoc {
        execution: agent_definition().execution,
        ..agent_definition_g2()
    };
    assert_corrupt(agent_chain(&[(agent_head_definition_g2(), Some(repeated_definition))]).open());
    let repeated_metadata = AgentHeadDoc {
        name: agent_head().name,
        updated_at: AGENT_CREATED + 20,
        ..agent_head_metadata_g2()
    };
    assert_corrupt(agent_chain(&[(repeated_metadata, None)]).open());
    let repeated_status = AgentHeadDoc {
        status: AgentStatus::Enabled,
        ..agent_head_status_g2()
    };
    assert_corrupt(agent_chain(&[(repeated_status, None)]).open());
}

#[test]
fn mixed_categories_revision_reuse_and_pointer_or_payload_mismatches_are_corrupt() {
    let disabled = AgentStatus::Disabled;
    let g2_definition = Some(agent_definition_g2());
    for (head, definition) in [
        (
            AgentHeadDoc {
                status: disabled,
                ..agent_head_definition_g2()
            },
            g2_definition.clone(),
        ),
        (
            AgentHeadDoc {
                status: disabled,
                ..agent_head_metadata_g2()
            },
            None,
        ),
        (
            AgentHeadDoc {
                revision: 3,
                ..agent_head_definition_g2()
            },
            Some(AgentDefinitionDoc {
                revision: 3,
                ..agent_definition_g2()
            }),
        ),
        (
            AgentHeadDoc {
                metadata_revision: 1,
                ..agent_head_metadata_g2()
            },
            None,
        ),
        (
            AgentHeadDoc {
                definition_generation: 1,
                ..agent_head_definition_g2()
            },
            g2_definition.clone(),
        ),
        (
            AgentHeadDoc {
                revision: 2,
                definition_generation: 2,
                ..agent_head_metadata_g2()
            },
            None,
        ),
        (agent_head_definition_g2(), None),
        (agent_head_metadata_g2(), g2_definition.clone()),
    ] {
        assert_corrupt(agent_chain(&[(head, definition)]).open());
    }
}

#[test]
fn generation_gap_g2_alone_and_corrupt_highest_generation_never_fall_back() {
    let mut gap = Disk::marked();
    gap.create_valid_g1_agent();
    gap.create_agent_generation(AGENT_ONE, GENERATION_THREE, &g3_deleted(), None);
    assert_corrupt(gap.open());

    let mut alone = Disk::marked();
    alone.create_valid_g1_agent();
    let first = first_generation(&format!("agents/{AGENT_ONE}"));
    alone.nodes.retain(|path, _| !path.starts_with(&first));
    alone.create_agent_generation(
        AGENT_ONE,
        GENERATION_TWO,
        &agent_head(),
        Some(&agent_definition()),
    );
    assert_corrupt(alone.open());

    let mut corrupt = agent_chain(&[(agent_head_status_g2(), None)]);
    corrupt.create_file(
        &format!("agents/{AGENT_ONE}/generations/{GENERATION_TWO}/head.json"),
        b"not canonical JSON\n",
    );
    assert_corrupt(corrupt.open());
}

#[test]
fn published_agent_markerless_trailing_generation_is_cleaned_before_catalog_install() {
    let mut disk = Disk::marked();
    disk.create_valid_g1_agent();
    let pending = disk.create_markerless_generation(
        &format!("agents/{AGENT_ONE}"),
        GENERATION_TWO,
        true,
        false,
    );
    let catalog = DurableCatalog::open(disk.open().unwrap().catalog);
    assert_eq!(
        catalog
            .agent_head(agent(AGENT_ONE))
            .unwrap()
            .storage_generation()
            .get(),
        1
    );
    assert!(!disk.holds(&pending));
}

#[test]
fn deleted_agent_rejects_every_later_definition_metadata_or_status_generation() {
    let deleted = AgentStatus::Deleted;
    for (head, definition) in [
        (
            AgentHeadDoc {
                definition_generation: 4,
                status: deleted,
                ..at_generation(agent_head_definition_g2(), 4)
            },
            Some(agent_definition_g2()),
        ),
        (
            AgentHeadDoc {
                status: deleted,
                ..at_generation(agent_head_metadata_g2(), 4)
            },
            None,
        ),
        (at_generation(agent_head_status_g2(), 4), None),
    ] {
        assert_corrupt(
            agent_chain(&[
                (agent_head_status_g2(), None),
                (g3_deleted(), None),
                (head, definition),
            ])
            .open(),
        );
    }
}

#[test]
fn valid_g2_definition_recovers_the_current_definition_and_complete_revision_index() {
    let catalog = open_agent_chain(&[(agent_head_definition_g2(), Some(agent_definition_g2()))]);
    let id = agent(AGENT_ONE);
    let head = catalog.agent_head(id).unwrap();
    assert_eq!(head.storage_generation().get(), 2);
    assert_eq!(head.current_definition_revision().get(), 2);
    assert_eq!(catalog.agent_current_definition(id).unwrap().revision.get(), 2);
    let index = &catalog.agents[&id.value()].definition_index;
    assert_eq!(index.len(), 2);
    assert_eq!(index[&1].get(), 1);
    assert_eq!(index[&2].get(), 2);
}

#[test]
fn two_distinct_exact_g1_agents_recover_and_an_orphan_remains_invisible() {
    let mut disk = Disk::marked();
    disk.create_valid_g1_agent();
    disk.create_agent(
        AGENT_TWO,
        &AgentHeadDoc {
            agent: agent(AGENT_TWO),
            ..agent_head()
        },
        &AgentDefinitionDoc {
            agent: agent(AGENT_TWO),
            ..agent_definition()
        },
    );
    let orphan = "agt_33333333333333333333333333333333";
    disk.create_file(&format!("reservations/agents/{orphan}"), b"");
    let opened = disk.open().unwrap();
    assert_eq!(opened.agent_reservations.len(), 3);
    let catalog = DurableCatalog::open(opened.catalog);
    assert!(catalog.agent_head(agent(AGENT_ONE)).is_some());
    assert!(catalog.agent_head(agent(AGENT_TWO)).is_some());
    assert!(catalog.agent_head(agent(orphan)).is_none());
}

#[test]
fn published_agent_requires_its_exact_permanent_reservation() {
    let mut missing = Disk::marked();
    missing.create_valid_g1_agent();
    missing.remove(&format!("reservations/agents/{AGENT_ONE}"));
    assert_corrupt(missing.open());
    missing.create_file(&format!("reservations/agents/{AGENT_TWO}"), b"");
    assert_corrupt(missing.open());
}

#[test]
fn malformed_agent_reservations_are_corrupt() {
    let mut invalid_name = Disk::marked();
    invalid_name.create_file("reservations/agents/not-an-agent", b"");
    assert_corrupt(invalid_name.open());
    let mut nonzero = Disk::marked();
    nonzero.create_file(&format!("reservations/agents/{AGENT_ONE}"), b"not-zero");
    assert_corrupt(nonzero.open());
    let mut directory = Disk::marked();
    directory.create_directory(&format!("reservations/agents/{AGENT_ONE}"));
    assert_corrupt(directory.open());
}

#[test]
fn linked_or_wrong_mode_agent_reservations_are_corrupt() {
    let path = format!("reservations/agents/{AGENT_ONE}");
    let mut linked = Disk::marked();
    linked.create_symlink(&path);
    assert_corrupt(linked.open());
    let mut wrong_mode = Disk::marked();
    wrong_mode.create_file(&path, b"");
    wrong_mode.set_mode(&path, 0o100644);
    assert_corrupt(wrong_mode.open());
}

#[test]
fn agent_path_head_and_definition_ids_must_agree() {
    let other_head = AgentHeadDoc {
        agent: agent(AGENT_TWO),
        ..agent_head()
    };
    let other_definition = AgentDefinitionDoc {
        agent: agent(AGENT_TWO),
        ..agent_definition()
    };
    for (name, head, definition) in [
        (AGENT_TWO, agent_head(), agent_definition()),
        (AGENT_ONE, other_head, agent_definition()),
        (AGENT_ONE, agent_head(), other_definition),
    ] {
        let mut disk = Disk::marked();
        disk.create_agent(name, &head, &definition);
        assert_corrupt(disk.open());
    }
}

#[test]
fn agent_entity_shape_keeps_invalid_published_corrupt_and_accepts_exact_unpublished_g1() {
    let entity = format!("agents/{AGENT_ONE}");
    let published = join(&entity, "PUBLISHED");
    let store = || {
        let mut disk = Disk::marked();
        disk.create_valid_g1_agent();
        disk
    };

    let mut missing = store();
    missing.remove(&published);
    assert!(missing.open().unwrap().catalog.agents.is_empty());
    assert!(!missing.holds(&entity));
    assert!(missing.holds(&reservation_of(&entity)));

    let mut wrong = store();
    wrong.create_directory(&published);
    assert_corrupt(wrong.open());

    let mut nonzero = store();
    nonzero.create_file(&published, b"not-zero");
    assert_corrupt(nonzero.open());

    let mut file = store();
    let generations = join(&entity, "generations");
    file.nodes
        .retain(|path, _| !path.starts_with(&generations));
    file.create_file(&generations, b"");
    assert_corrupt(file.open());

    let mut too_many = store();
    too_many.create_file(&join(&entity, "invalid-third"), b"");
    assert_fails(too_many.open(), DurableOpenError::DurableStateTooLarge);
}

#[test]
fn generation_chain_namespace_requires_canonical_names_a_committed_g1_and_one_trailing_markerless_directory(
) {
    let generations = format!("agents/{AGENT_ONE}/generations");
    let store = || {
        let mut disk = Disk::marked();
        disk.create_valid_g1_agent();
        disk
    };
    for renamed in ["1", GENERATION_TWO] {
        let mut disk = store();
        disk.nodes
            .retain(|path, _| !path.starts_with(&join(&generations, GENERATION_ONE)));
        disk.create_agent_generation(
            AGENT_ONE,
            renamed,
            &agent_head(),
            Some(&agent_definition()),
        );
        assert_corrupt(disk.open());
    }

    let mut staged = store();
    staged.create_directory(&join(&generations, GENERATION_TWO));
    let catalog = DurableCatalog::open(staged.open().unwrap().catalog);
    assert!(!staged.holds(&join(&generations, GENERATION_TWO)));
    assert_eq!(
        catalog
            .agent_head(agent(AGENT_ONE))
            .unwrap()
            .storage_generation()
            .get(),
        1
    );

    let mut missing = store();
    missing
        .nodes
        .retain(|path, _| !path.starts_with(&join(&generations, GENERATION_ONE)));
    assert_corrupt(missing.open());

    let mut extra = store();
    extra.create_directory(&join(&generations, "foreign"));
    assert_corrupt(extra.open());
}

#[test]
fn g1_payload_is_exact_and_payload_cap_precedes_classification() {
    let generation = first_generation(&format!("agents/{AGENT_ONE}"));
    let store = || {
        let mut disk = Disk::marked();
        disk.create_valid_g1_agent();
        disk
    };
    for missing in ["head.json", "definition.json", "COMMITTED"] {
        let mut disk = store();
        disk.remove(&join(&generation, missing));
        assert_corrupt(disk.open());
    }
    for replaced in ["COMMITTED", "definition.json"] {
        let mut disk = store();
        disk.create_directory(&join(&generation, replaced));
        assert_corrupt(disk.open());
    }
    let mut nonzero = store();
    nonzero.create_file(&join(&generation, "COMMITTED"), b"not-zero");
    assert_corrupt(nonzero.open());
    let mut too_many = store();
    too_many.create_file(&join(&generation, "invalid-fourth"), b"");
    assert_fails(too_many.open(), DurableOpenError::DurableStateTooLarge);
}

#[test]
fn g1_payload_wrong_unix_mode_is_corrupt() {
    let mut disk = Disk::marked();
    disk.create_valid_g1_agent();
    let head = join(&first_generation(&format!("agents/{AGENT_ONE}")), "head.json");
    disk.set_mode(&head, 0o100644);
    assert_corrupt(disk.open());
}

#[test]
fn g1_payload_symlink_is_corrupt() {
    let mut disk = Disk::marked();
    disk.create_valid_g1_agent();
    let head = join(&first_generation(&format!("agents/{AGENT_ONE}")), "head.json");
    disk.create_symlink(&head);
    assert_corrupt(disk.open());
}

#[test]
fn g1_semantic_matrix_rejects_noninitial_revisions_status_pointer_and_timestamps() {
    for head in [
        AgentHeadDoc {
            revision: 2,
            ..agent_head()
        },
        AgentHeadDoc {
            metadata_revision: 2,
            ..agent_head()
        },
        AgentHeadDoc {
            status: AgentStatus::Disabled,
            ..agent_head()
        },
        AgentHeadDoc {
            status: AgentStatus::Deleted,
            ..agent_head()
        },
        AgentHeadDoc {
            created_at: AGENT_CREATED + 1,
            ..agent_head()
        },
        AgentHeadDoc {
            updated_at: AGENT_CREATED + 1,
            ..agent_head()
        },
    ] {
        let mut disk = Disk::marked();
        disk.create_agent(AGENT_ONE, &head, &agent_definition());
        assert_corrupt(disk.open());
    }
    let mut disk = Disk::marked();
    disk.create_agent(
        AGENT_ONE,
        &agent_head(),
        &AgentDefinitionDoc {
            revision: 2,
            ..agent_definition()
        },
    );
    assert_corrupt(disk.open());
}

#[test]
fn malformed_and_structurally_oversized_documents_map_to_the_closed_errors() {
    let generation = first_generation(&format!("agents/{AGENT_ONE}"));
    let store = || {
        let mut disk = Disk::marked();
        disk.create_valid_g1_agent();
        disk
    };
    let mut malformed = store();
    malformed.create_file(&join(&generation, "head.json"), b"not JSON\n");
    assert_corrupt(malformed.open());

    let mut deeply_nested = b"{\"x\":".repeat(65);
    deeply_nested.push(b'0');
    deeply_nested.extend(vec![b'}'; 65]);
    deeply_nested.push(b'\n');
    let mut structural = store();
    structural.create_file(&join(&generation, "definition.json"), &deeply_nested);
    assert_fails(structural.open(), DurableOpenError::DurableStateTooLarge);

    let mut too_large = store();
    too_large.create_file(&join(&generation, "definition.json"), &vec![b'x'; 1_048_577]);
    assert_fails(too_large.open(), DurableOpenError::DurableStateTooLarge);
}

// ---------------------------------------------------------------------------------------------
// Session chains
// ---------------------------------------------------------------------------------------------

/// A store with one Agent and one ordinary Session of these generations.
fn session_chain(later: &[(SessionHeadDoc, Option<SessionDefinitionDoc>)]) -> Disk {
    let mut disk = Disk::marked();
    disk.create_valid_g1_agent();
    disk.create_valid_g1_session();
    for (i, (head, definition)) in later.iter().enumerate() {
        let name = generation(i as u32 + 2).directory_name();
        disk.create_session_generation(SESSION_ONE, &name, head, definition.as_ref());
    }
    disk
}

fn open_session_chain(later: &[(SessionHeadDoc, Option<SessionDefinitionDoc>)]) -> DurableCatalog {
    DurableCatalog::open(session_chain(later).open().unwrap().catalog)
}

fn at_session_generation(head: SessionHeadDoc, ordinal: u32) -> SessionHeadDoc {
    SessionHeadDoc {
        generation: ordinal,
        previous: Some(ordinal - 1),
        ..head
    }
}

fn session_g3(lifecycle: SessionLifecycle) -> SessionHeadDoc {
    SessionHeadDoc {
        lifecycle,
        ..at_session_generation(session_head_archived_g2(), 3)
    }
}

fn workspace_definition_g2() -> SessionDefinitionDoc {
    SessionDefinitionDoc {
        workspace_revision: 2,
        workspace: "another project",
        execution: session_definition().execution,
        ..session_definition_g2()
    }
}

fn ordinary_session(disk: &mut Disk, name: &str) {
    disk.create_session(
        name,
        &SessionHeadDoc {
            session: session(name),
            ..session_head()
        },
        &SessionDefinitionDoc {
            session: session(name),
            ..session_definition()
        },
    );
}

fn fork_session(disk: &mut Disk, name: &str, fork: Fork) {
    disk.create_session(name, &fork_head(name, fork), &fork_definition(name));
}

#[test]
fn marked_empty_store_has_an_empty_private_session_catalog() {
    let catalog = DurableCatalog::open(Disk::marked().open().unwrap().catalog);
    assert!(catalog.session_head(session(SESSION_ONE)).is_none());
    assert!(catalog
        .session_current_definition(session(SESSION_ONE))
        .is_none());
}

#[test]
fn exact_ordinary_g1_session_recovers_same_arcs_without_reading_conversation_bytes() {
    let mut disk = session_chain(&[]);
    let path = format!("sessions/{SESSION_ONE}/conversation.jsonl");
    disk.create_file(&path, b"\xff entirely arbitrary non-header bytes\x00\n");
    let catalog = DurableCatalog::open(disk.open().unwrap().catalog);
    let id = session(SESSION_ONE);
    let first = catalog.session_head(id).unwrap();
    assert!(Arc::ptr_eq(first, catalog.session_head(id).unwrap()));
    assert_eq!(first.session_id(), id);
    assert_eq!(first.storage_generation().get(), 1);
    assert_eq!(first.current_definition_revision().get(), 1);
    assert_eq!(first.current_definition_storage_generation().get(), 1);
    assert_eq!(first.metadata().revision.get(), 1);
    assert_eq!(first.lifecycle(), SessionLifecycle::Open);
    assert!(first.fork_provenance().is_none());
    let definition = catalog.session_current_definition(id).unwrap();
    assert_eq!(definition.session_id, id);
    assert_eq!(definition.revision.get(), 1);
    assert_eq!(definition.workspace.revision.get(), 1);
    assert!(disk.expected.is_empty());
    assert_eq!(
        disk.nodes[&path].bytes,
        b"\xff entirely arbitrary non-header bytes\x00\n"
    );
}

#[test]
fn orphan_session_reservation_is_invisible_but_published_session_requires_an_exact_match() {
    let mut orphan = Disk::marked();
    orphan.create_file(&format!("reservations/sessions/{SESSION_ONE}"), b"");
    assert!(orphan.open().unwrap().catalog.sessions.is_empty());
    let mut missing = session_chain(&[]);
    missing.remove(&format!("reservations/sessions/{SESSION_ONE}"));
    assert_corrupt(missing.open());
    missing.create_file(&format!("reservations/sessions/{SESSION_TWO}"), b"");
    assert_corrupt(missing.open());
}

#[test]
fn session_entity_keeps_invalid_published_corrupt_and_accepts_exact_unpublished_g1() {
    let entity = format!("sessions/{SESSION_ONE}");
    let mut missing = session_chain(&[]);
    missing.remove(&join(&entity, "PUBLISHED"));
    assert!(missing.open().unwrap().catalog.sessions.is_empty());
    assert!(!missing.holds(&entity));
    assert!(missing.holds(&reservation_of(&entity)));

    let mut conversation = session_chain(&[]);
    conversation.remove(&join(&entity, "conversation.jsonl"));
    assert_corrupt(conversation.open());

    let mut file = session_chain(&[]);
    let generations = join(&entity, "generations");
    file.nodes.retain(|path, _| !path.starts_with(&generations));
    file.create_file(&generations, b"");
    assert_corrupt(file.open());

    let mut too_many = session_chain(&[]);
    too_many.create_file(&join(&entity, "foreign-fourth"), b"");
    assert_fails(too_many.open(), DurableOpenError::DurableStateTooLarge);
}

#[test]
fn session_g1_payload_requires_exact_head_definition_and_committed_and_obeys_its_cap() {
    let generation = first_generation(&format!("sessions/{SESSION_ONE}"));
    for missing in ["head.json", "definition.json", "COMMITTED"] {
        let mut disk = session_chain(&[]);
        disk.remove(&join(&generation, missing));
        assert_corrupt(disk.open());
    }
    let mut too_many = session_chain(&[]);
    too_many.create_file(&join(&generation, "foreign-fourth"), b"");
    assert_fails(too_many.open(), DurableOpenError::DurableStateTooLarge);
}

#[test]
fn session_conversation_must_be_a_private_regular_non_link_file_without_reading_it() {
    let path = format!("sessions/{SESSION_ONE}/conversation.jsonl");
    let mut directory = session_chain(&[]);
    directory.create_directory(&path);
    assert_corrupt(directory.open());
    let mut linked = session_chain(&[]);
    linked.create_symlink(&path);
    assert_corrupt(linked.open());
    let mut wrong_mode = session_chain(&[]);
    wrong_mode.set_mode(&path, 0o100644);
    assert_corrupt(wrong_mode.open());
}

#[test]
fn session_path_head_definition_and_g1_semantic_facts_must_agree() {
    let other = session(SESSION_TWO);
    for (name, head, definition) in [
        (SESSION_TWO, session_head(), session_definition()),
        (
            SESSION_ONE,
            SessionHeadDoc {
                session: other,
                ..session_head()
            },
            session_definition(),
        ),
        (
            SESSION_ONE,
            session_head(),
            SessionDefinitionDoc {
                session: other,
                ..session_definition()
            },
        ),
        (
            SESSION_ONE,
            SessionHeadDoc {
                revision: 2,
                ..session_head()
            },
            session_definition(),
        ),
        (
            SESSION_ONE,
            session_head(),
            SessionDefinitionDoc {
                revision: 2,
                ..session_definition()
            },
        ),
        (
            SESSION_ONE,
            session_head(),
            SessionDefinitionDoc {
                workspace_revision: 2,
                ..session_definition()
            },
        ),
        (
            SESSION_ONE,
            SessionHeadDoc {
                metadata_revision: 2,
                ..session_head()
            },
            session_definition(),
        ),
        (
            SESSION_ONE,
            SessionHeadDoc {
                lifecycle: SessionLifecycle::Archived,
                ..session_head()
            },
            session_definition(),
        ),
        (
            SESSION_ONE,
            SessionHeadDoc {
                created_at: SESSION_CREATED + 1,
                ..session_head()
            },
            session_definition(),
        ),
        (
            SESSION_ONE,
            session_head(),
            SessionDefinitionDoc {
                created_at: SESSION_CREATED + 1,
                ..session_definition()
            },
        ),
        (
            SESSION_ONE,
            SessionHeadDoc {
                updated_at: SESSION_CREATED + 1,
                ..session_head()
            },
            session_definition(),
        ),
    ] {
        let mut disk = Disk::marked();
        disk.create_valid_g1_agent();
        disk.create_session(name, &head, &definition);
        assert_corrupt(disk.open());
    }
}

#[test]
fn session_agent_ref_must_resolve_to_a_retained_exact_agent_definition() {
    let mut missing_agent = Disk::marked();
    missing_agent.create_valid_g1_session();
    assert_corrupt(missing_agent.open());

    let mut missing_revision = Disk::marked();
    missing_revision.create_valid_g1_agent();
    missing_revision.create_session(
        SESSION_ONE,
        &session_head(),
        &SessionDefinitionDoc {
            agent_revision: 2,
            ..session_definition()
        },
    );
    assert_corrupt(missing_revision.open());

    let mut retained = session_chain(&[]);
    retained.create_agent_generation(
        AGENT_ONE,
        GENERATION_TWO,
        &agent_head_definition_g2(),
        Some(&agent_definition_g2()),
    );
    let catalog = DurableCatalog::open(retained.open().unwrap().catalog);
    assert_eq!(
        catalog
            .agent_head(agent(AGENT_ONE))
            .unwrap()
            .current_definition_revision()
            .get(),
        2
    );
    assert_eq!(
        catalog
            .session_current_definition(session(SESSION_ONE))
            .unwrap()
            .agent
            .revision
            .get(),
        1
    );

    for status in [AgentStatus::Disabled, AgentStatus::Deleted] {
        let mut disk = session_chain(&[]);
        disk.create_agent_generation(
            AGENT_ONE,
            GENERATION_TWO,
            &AgentHeadDoc {
                status,
                ..agent_head_status_g2()
            },
            None,
        );
        assert!(disk.open().is_ok());
    }
}

#[test]
fn session_g1_and_fork_recover_and_markerless_staging_is_deferred_cleaned() {
    let mut disk = session_chain(&[]);
    fork_session(&mut disk, SESSION_TWO, fork_of(SESSION_ONE));
    let before = disk.nodes.clone();
    let catalog = DurableCatalog::open(disk.open().unwrap().catalog);
    assert!(
        catalog
            .session_head(session(SESSION_TWO))
            .unwrap()
            .fork_provenance()
            == Some(build_provenance(fork_of(SESSION_ONE)))
    );
    assert!(disk.nodes == before);

    let catalog =
        open_session_chain(&[(session_head_definition_g2(), Some(session_definition_g2()))]);
    let id = session(SESSION_ONE);
    assert_eq!(catalog.session_head(id).unwrap().storage_generation().get(), 2);
    assert_eq!(
        catalog.session_current_definition(id).unwrap().revision.get(),
        2
    );

    let mut markerless = session_chain(&[]);
    let staging = markerless.create_markerless_generation(
        &format!("sessions/{SESSION_ONE}"),
        GENERATION_TWO,
        true,
        false,
    );
    let catalog = DurableCatalog::open(markerless.open().unwrap().catalog);
    assert_eq!(catalog.session_head(id).unwrap().storage_generation().get(), 1);
    assert!(!markerless.holds(&staging));
    assert!(markerless.holds(&format!("sessions/{SESSION_ONE}/conversation.jsonl")));
}

#[test]
fn authoritative_genesis_and_live_snapshot_fork_g1s_recover_with_exact_provenance() {
    let genesis = Fork {
        anchor: Anchor::Genesis,
        ..fork_of(SESSION_ONE)
    };
    let live = Fork {
        live: true,
        anchor: Anchor::BeforeFinal(0xcccc),
        ..fork_of(SESSION_ONE)
    };
    let mut disk = session_chain(&[]);
    fork_session(&mut disk, SESSION_THREE, genesis);
    fork_session(&mut disk, SESSION_TWO, live);
    let catalog = DurableCatalog::open(disk.open().unwrap().catalog);
    for (name, fork) in [(SESSION_THREE, genesis), (SESSION_TWO, live)] {
        assert!(
            catalog
                .session_head(session(name))
                .unwrap()
                .fork_provenance()
                == Some(build_provenance(fork))
        );
    }
}

#[test]
fn fork_source_must_be_a_published_session_catalog_entry() {
    for reserved in [false, true] {
        let mut disk = Disk::marked();
        disk.create_valid_g1_agent();
        if reserved {
            disk.create_file(&format!("reservations/sessions/{SESSION_ONE}"), b"");
        }
        fork_session(&mut disk, SESSION_TWO, fork_of(SESSION_ONE));
        assert_corrupt(disk.open());
    }
}

#[test]
fn nested_fork_child_sorting_before_its_source_does_not_affect_post_pass_recovery() {
    let mut disk = session_chain(&[]);
    fork_session(&mut disk, SESSION_TWO, fork_of(SESSION_ONE));
    fork_session(&mut disk, SESSION_BEFORE_SOURCE, fork_of(SESSION_TWO));
    let catalog = DurableCatalog::open(disk.open().unwrap().catalog);
    assert!(catalog.session_head(session(SESSION_BEFORE_SOURCE)).is_some());
    assert!(catalog.session_head(session(SESSION_TWO)).is_some());
}

#[test]
fn fork_sources_may_currently_be_archived_or_deleted() {
    for later in [
        vec![(session_head_archived_g2(), None)],
        vec![
            (session_head_archived_g2(), None),
            (session_g3(SessionLifecycle::Deleted), None),
        ],
    ] {
        let mut disk = session_chain(&later);
        fork_session(
            &mut disk,
            SESSION_TWO,
            Fork {
                anchor: Anchor::Genesis,
                ..fork_of(SESSION_ONE)
            },
        );
        let catalog = DurableCatalog::open(disk.open().unwrap().catalog);
        assert!(catalog.session_head(session(SESSION_TWO)).is_some());
    }
}

#[test]
fn fork_provenance_cycles_are_rejected_iteratively() {
    let mut two = Disk::marked();
    two.create_valid_g1_agent();
    fork_session(&mut two, SESSION_ONE, fork_of(SESSION_TWO));
    fork_session(&mut two, SESSION_TWO, fork_of(SESSION_ONE));
    assert_corrupt(two.open());

    let mut three = Disk::marked();
    three.create_valid_g1_agent();
    fork_session(&mut three, SESSION_ONE, fork_of(SESSION_TWO));
    fork_session(&mut three, SESSION_TWO, fork_of(SESSION_THREE));
    fork_session(&mut three, SESSION_THREE, fork_of(SESSION_ONE));
    assert_corrupt(three.open());
}

#[test]
fn a_fork_hanging_from_a_cycle_is_rejected_and_a_long_chain_is_not() {
    let mut hanging = Disk::marked();
    hanging.create_valid_g1_agent();
    fork_session(&mut hanging, SESSION_ONE, fork_of(SESSION_TWO));
    fork_session(&mut hanging, SESSION_TWO, fork_of(SESSION_ONE));
    fork_session(&mut hanging, SESSION_BEFORE_SOURCE, fork_of(SESSION_ONE));
    assert_corrupt(hanging.open());

    let mut long = session_chain(&[]);
    let mut source = SESSION_ONE.to_owned();
    for i in 0..50_u128 {
        let name = SessionId::new(0x5555_0000 - i).unwrap().canonical_name();
        fork_session(&mut long, &name, fork_of(&source));
        source = name;
    }
    assert_eq!(long.open().unwrap().catalog.sessions.len(), 51);
}

/// A store with a source and a fork of these later generations.
fn fork_chain(later: &[(SessionHeadDoc, Option<SessionDefinitionDoc>)]) -> Disk {
    let mut disk = session_chain(&[]);
    fork_session(&mut disk, SESSION_TWO, fork_of(SESSION_ONE));
    for (i, (head, definition)) in later.iter().enumerate() {
        let name = generation(i as u32 + 2).directory_name();
        disk.create_session_generation(SESSION_TWO, &name, head, definition.as_ref());
    }
    disk
}

#[test]
fn fork_definition_metadata_and_lifecycle_generations_preserve_exact_provenance() {
    let base = fork_head(SESSION_TWO, fork_of(SESSION_ONE));
    let definition_head = SessionHeadDoc {
        revision: 2,
        definition_generation: 2,
        ..at_session_generation(base, 2)
    };
    let definition = SessionDefinitionDoc {
        session: session(SESSION_TWO),
        ..session_definition_g2()
    };
    let metadata_head = SessionHeadDoc {
        metadata_revision: 2,
        name: Some("named fork"),
        updated_at: FORK_CREATED + 10,
        ..at_session_generation(definition_head.clone(), 3)
    };
    let lifecycle_head = SessionHeadDoc {
        lifecycle: SessionLifecycle::Archived,
        ..at_session_generation(metadata_head.clone(), 4)
    };
    let mut disk = fork_chain(&[
        (definition_head, Some(definition)),
        (metadata_head, None),
        (lifecycle_head, None),
    ]);
    let catalog = DurableCatalog::open(disk.open().unwrap().catalog);
    let child = catalog.session_head(session(SESSION_TWO)).unwrap();
    assert_eq!(child.storage_generation().get(), 4);
    assert_eq!(child.current_definition_revision().get(), 2);
    assert_eq!(child.metadata().revision.get(), 2);
    assert_eq!(child.lifecycle(), SessionLifecycle::Archived);
    assert!(child.fork_provenance() == Some(build_provenance(fork_of(SESSION_ONE))));
}

#[test]
fn later_session_generations_require_exact_typed_fork_provenance_equality() {
    let archived = SessionHeadDoc {
        lifecycle: SessionLifecycle::Archived,
        ..at_session_generation(fork_head(SESSION_TWO, fork_of(SESSION_ONE)), 2)
    };
    assert!(fork_chain(&[(archived.clone(), None)]).open().is_ok());
    for fork in [
        None,
        Some(fork_of(SESSION_THREE)),
        Some(Fork {
            live: true,
            ..fork_of(SESSION_ONE)
        }),
        Some(Fork {
            anchor: Anchor::Before(0xbbbb),
            ..fork_of(SESSION_ONE)
        }),
        Some(Fork {
            anchor: Anchor::After(0xcccc),
            ..fork_of(SESSION_ONE)
        }),
    ] {
        let head = SessionHeadDoc {
            fork,
            ..archived.clone()
        };
        let mut disk = fork_chain(&[(head, None)]);
        ordinary_session(&mut disk, SESSION_THREE);
        assert_corrupt(disk.open());
    }

    let mut ordinary = session_chain(&[]);
    ordinary_session(&mut ordinary, SESSION_TWO);
    ordinary.create_session_generation(
        SESSION_TWO,
        GENERATION_TWO,
        &SessionHeadDoc {
            session: session(SESSION_TWO),
            fork: Some(fork_of(SESSION_ONE)),
            ..session_head_archived_g2()
        },
        None,
    );
    assert_corrupt(ordinary.open());
}

#[test]
fn fork_g1_metadata_must_be_empty() {
    let mut disk = session_chain(&[]);
    disk.create_session(
        SESSION_TWO,
        &SessionHeadDoc {
            name: Some("Fork child"),
            ..fork_head(SESSION_TWO, fork_of(SESSION_ONE))
        },
        &fork_definition(SESSION_TWO),
    );
    assert_corrupt(disk.open());
}

#[test]
fn authoritative_ordinary_session_definition_metadata_and_lifecycle_chains_recover() {
    let id = session(SESSION_ONE);
    let catalog =
        open_session_chain(&[(session_head_definition_g2(), Some(session_definition_g2()))]);
    assert_eq!(catalog.session_head(id).unwrap().storage_generation().get(), 2);
    assert_eq!(
        catalog.session_current_definition(id).unwrap().revision.get(),
        2
    );

    let catalog = open_session_chain(&[(session_head_metadata_g2(), None)]);
    assert_eq!(catalog.session_head(id).unwrap().metadata().revision.get(), 2);

    let same_timestamp = SessionHeadDoc {
        updated_at: SESSION_CREATED,
        ..session_head_metadata_g2()
    };
    open_session_chain(&[(same_timestamp, None)]);

    let catalog =
        open_session_chain(&[(session_head_definition_g2(), Some(workspace_definition_g2()))]);
    assert_eq!(
        catalog
            .session_current_definition(id)
            .unwrap()
            .workspace
            .revision
            .get(),
        2
    );

    let metadata_g3 = SessionHeadDoc {
        revision: 2,
        definition_generation: 2,
        ..at_session_generation(session_head_metadata_g2(), 3)
    };
    let catalog = open_session_chain(&[
        (session_head_definition_g2(), Some(session_definition_g2())),
        (metadata_g3, None),
    ]);
    assert_eq!(catalog.session_head(id).unwrap().storage_generation().get(), 3);
    assert_eq!(
        catalog.session_current_definition(id).unwrap().revision.get(),
        2
    );

    for lifecycle in [SessionLifecycle::Open, SessionLifecycle::Deleted] {
        let catalog = open_session_chain(&[
            (session_head_archived_g2(), None),
            (session_g3(lifecycle), None),
        ]);
        assert_eq!(catalog.session_head(id).unwrap().storage_generation().get(), 3);
        assert_eq!(catalog.session_head(id).unwrap().lifecycle(), lifecycle);
    }
}

#[test]
fn session_definition_changes_allow_same_agent_retained_revision_upgrade_and_rollback() {
    let upgrade = SessionDefinitionDoc {
        agent_revision: 2,
        execution: session_definition().execution,
        ..session_definition_g2()
    };
    let rollback_head = SessionHeadDoc {
        revision: 3,
        definition_generation: 3,
        ..at_session_generation(session_head_definition_g2(), 3)
    };
    let rollback = SessionDefinitionDoc {
        revision: 3,
        ..session_definition()
    };
    let mut disk = session_chain(&[(session_head_definition_g2(), Some(upgrade))]);
    disk.create_agent_generation(
        AGENT_ONE,
        GENERATION_TWO,
        &agent_head_definition_g2(),
        Some(&agent_definition_g2()),
    );
    let catalog = DurableCatalog::open(disk.open().unwrap().catalog);
    let upgraded = catalog
        .session_current_definition(session(SESSION_ONE))
        .unwrap();
    assert_eq!(upgraded.revision.get(), 2);
    assert_eq!(upgraded.agent.revision.get(), 2);

    disk.create_session_generation(SESSION_ONE, GENERATION_THREE, &rollback_head, Some(&rollback));
    let catalog = DurableCatalog::open(disk.open().unwrap().catalog);
    let definition = catalog
        .session_current_definition(session(SESSION_ONE))
        .unwrap();
    assert_eq!(definition.revision.get(), 3);
    assert_eq!(definition.agent.revision.get(), 1);
}

#[test]
fn new_session_definition_may_reference_retained_agent_content_when_current_agent_is_disabled_or_deleted(
) {
    for status in [AgentStatus::Disabled, AgentStatus::Deleted] {
        let mut disk =
            session_chain(&[(session_head_definition_g2(), Some(session_definition_g2()))]);
        disk.create_agent_generation(
            AGENT_ONE,
            GENERATION_TWO,
            &AgentHeadDoc {
                status,
                ..agent_head_status_g2()
            },
            None,
        );
        let catalog = DurableCatalog::open(disk.open().unwrap().catalog);
        assert_eq!(
            catalog
                .session_current_definition(session(SESSION_ONE))
                .unwrap()
                .revision
                .get(),
            2
        );
    }
}

#[test]
fn ordinary_session_definition_and_workspace_no_ops_mismatches_and_cross_agent_rebinds_are_corrupt() {
    for definition in [
        SessionDefinitionDoc {
            execution: session_definition().execution,
            ..session_definition_g2()
        },
        SessionDefinitionDoc {
            workspace_revision: 2,
            ..session_definition_g2()
        },
        SessionDefinitionDoc {
            workspace_revision: 1,
            ..workspace_definition_g2()
        },
        SessionDefinitionDoc {
            workspace_revision: 3,
            ..workspace_definition_g2()
        },
        SessionDefinitionDoc {
            agent_revision: 2,
            ..session_definition_g2()
        },
    ] {
        assert_corrupt(
            session_chain(&[(session_head_definition_g2(), Some(definition))]).open(),
        );
    }

    let mut cross_agent = session_chain(&[(
        session_head_definition_g2(),
        Some(SessionDefinitionDoc {
            agent: agent(AGENT_TWO),
            ..session_definition_g2()
        }),
    )]);
    cross_agent.create_agent(
        AGENT_TWO,
        &AgentHeadDoc {
            agent: agent(AGENT_TWO),
            ..agent_head()
        },
        &AgentDefinitionDoc {
            agent: agent(AGENT_TWO),
            ..agent_definition()
        },
    );
    assert_corrupt(cross_agent.open());

    let mixed = SessionHeadDoc {
        lifecycle: SessionLifecycle::Archived,
        ..session_head_definition_g2()
    };
    assert_corrupt(session_chain(&[(mixed, Some(session_definition_g2()))]).open());
}

#[test]
fn ordinary_session_metadata_and_lifecycle_no_ops_mixed_changes_and_invalid_edges_are_corrupt() {
    for head in [
        SessionHeadDoc {
            name: session_head().name,
            ..session_head_metadata_g2()
        },
        SessionHeadDoc {
            metadata_revision: 3,
            ..session_head_metadata_g2()
        },
        SessionHeadDoc {
            lifecycle: SessionLifecycle::Archived,
            ..session_head_metadata_g2()
        },
        SessionHeadDoc {
            lifecycle: SessionLifecycle::Open,
            ..session_head_archived_g2()
        },
        SessionHeadDoc {
            lifecycle: SessionLifecycle::Deleted,
            ..session_head_archived_g2()
        },
    ] {
        assert_corrupt(session_chain(&[(head, None)]).open());
    }
    let archived_definition = SessionHeadDoc {
        definition_generation: 3,
        lifecycle: SessionLifecycle::Archived,
        ..at_session_generation(session_head_definition_g2(), 3)
    };
    assert_corrupt(
        session_chain(&[
            (session_head_archived_g2(), None),
            (archived_definition, Some(session_definition_g2())),
        ])
        .open(),
    );
}

#[test]
fn deleted_ordinary_session_rejects_every_later_category() {
    let deleted = SessionLifecycle::Deleted;
    for (head, definition) in [
        (
            SessionHeadDoc {
                definition_generation: 4,
                lifecycle: deleted,
                ..at_session_generation(session_head_definition_g2(), 4)
            },
            Some(session_definition_g2()),
        ),
        (
            SessionHeadDoc {
                lifecycle: deleted,
                ..at_session_generation(session_head_metadata_g2(), 4)
            },
            None,
        ),
        (
            SessionHeadDoc {
                lifecycle: deleted,
                ..at_session_generation(session_head_archived_g2(), 4)
            },
            None,
        ),
    ] {
        assert_corrupt(
            session_chain(&[
                (session_head_archived_g2(), None),
                (session_g3(deleted), None),
                (head, definition),
            ])
            .open(),
        );
    }
}

#[test]
fn ordinary_session_chain_payload_provenance_generation_and_pointer_mismatches_fail_closed_without_fallback(
) {
    for (head, definition) in [
        (session_head_definition_g2(), None),
        (session_head_metadata_g2(), Some(session_definition_g2())),
        (at_session_generation(session_head_archived_g2(), 3), None),
        (
            SessionHeadDoc {
                definition_generation: 1,
                ..session_head_definition_g2()
            },
            Some(session_definition_g2()),
        ),
        (
            SessionHeadDoc {
                revision: 3,
                ..session_head_definition_g2()
            },
            Some(SessionDefinitionDoc {
                revision: 3,
                ..session_definition_g2()
            }),
        ),
    ] {
        assert_corrupt(session_chain(&[(head, definition)]).open());
    }

    let mut alone = session_chain(&[]);
    let first = first_generation(&format!("sessions/{SESSION_ONE}"));
    alone.nodes.retain(|path, _| !path.starts_with(&first));
    alone.create_session_generation(
        SESSION_ONE,
        GENERATION_TWO,
        &session_head(),
        Some(&session_definition()),
    );
    assert_corrupt(alone.open());

    let mut gap = session_chain(&[]);
    gap.create_session_generation(
        SESSION_ONE,
        GENERATION_THREE,
        &session_g3(SessionLifecycle::Open),
        None,
    );
    assert_corrupt(gap.open());

    for highest in [GENERATION_TWO, GENERATION_THREE] {
        let mut corrupt = session_chain(&[
            (session_head_archived_g2(), None),
            (session_g3(SessionLifecycle::Open), None),
        ]);
        if highest == GENERATION_TWO {
            let third = format!("sessions/{SESSION_ONE}/generations/{GENERATION_THREE}");
            corrupt.nodes.retain(|path, _| !path.starts_with(&third));
        }
        corrupt.create_file(
            &format!("sessions/{SESSION_ONE}/generations/{highest}/head.json"),
            b"not canonical JSON\n",
        );
        assert_corrupt(corrupt.open());
    }

    let intermediate = SessionHeadDoc {
        fork: Some(Fork {
            anchor: Anchor::Genesis,
            ..fork_of(SESSION_TWO)
        }),
        ..session_head_archived_g2()
    };
    let mut provenance = session_chain(&[
        (intermediate, None),
        (session_g3(SessionLifecycle::Open), None),
    ]);
    let before = provenance.nodes.clone();
    assert_corrupt(provenance.open());
    assert!(provenance.nodes == before);
}

#[test]
fn session_collection_names_and_small_caps_precede_shape_classification() {
    for path in ["sessions", "reservations/sessions"] {
        let mut invalid = Disk::marked();
        invalid.create_file(&join(path, "invalid"), b"");
        assert_corrupt(invalid.open());
        let mut capped = Disk::marked();
        capped.create_file(&join(path, "invalid-one"), b"");
        capped.create_file(&join(path, "invalid-two"), b"");
        assert!(matches!(
            capped.recover(SMALL),
            Err(DurableOpenError::DurableStateTooLarge)
        ));
    }
}

// ---------------------------------------------------------------------------------------------
// Trailing generations
// ---------------------------------------------------------------------------------------------

const SUBSETS: [(bool, bool); 4] = [(false, false), (true, false), (false, true), (true, true)];

#[test]
fn published_agent_all_markerless_payload_subsets_cleanup_and_reopen() {
    for (head, definition) in SUBSETS {
        let mut disk = Disk::marked();
        disk.create_valid_g1_agent();
        let before = disk.nodes.clone();
        let staging = disk.create_markerless_generation(
            &format!("agents/{AGENT_ONE}"),
            GENERATION_TWO,
            head,
            definition,
        );
        for _ in 0..2 {
            let catalog = DurableCatalog::open(disk.open().unwrap().catalog);
            assert_eq!(
                catalog
                    .agent_head(agent(AGENT_ONE))
                    .unwrap()
                    .storage_generation()
                    .get(),
                1
            );
            assert!(!disk.holds(&staging));
            assert!(disk.nodes == before, "nothing but the staging is removed");
        }
    }
}

#[test]
fn published_session_all_markerless_payload_subsets_cleanup_without_touching_conversation() {
    for (head, definition) in SUBSETS {
        let mut disk = session_chain(&[]);
        let before = disk.nodes.clone();
        disk.create_markerless_generation(
            &format!("sessions/{SESSION_ONE}"),
            GENERATION_TWO,
            head,
            definition,
        );
        let catalog = DurableCatalog::open(disk.open().unwrap().catalog);
        assert_eq!(
            catalog
                .session_head(session(SESSION_ONE))
                .unwrap()
                .storage_generation()
                .get(),
            1
        );
        assert!(disk.nodes == before);
    }
}

#[test]
fn committed_g1_g2_prefix_recovers_old_head_after_g3_staging_for_agent_and_session() {
    let mut agents = agent_chain(&[(agent_head_metadata_g2(), None)]);
    let staging = agents.create_markerless_generation(
        &format!("agents/{AGENT_ONE}"),
        GENERATION_THREE,
        true,
        true,
    );
    let catalog = DurableCatalog::open(agents.open().unwrap().catalog);
    assert_eq!(
        catalog
            .agent_head(agent(AGENT_ONE))
            .unwrap()
            .storage_generation()
            .get(),
        2
    );
    assert!(!agents.holds(&staging));
    assert!(agents.holds(&format!(
        "agents/{AGENT_ONE}/generations/{GENERATION_TWO}/COMMITTED"
    )));

    let mut sessions = session_chain(&[(session_head_metadata_g2(), None)]);
    let staging = sessions.create_markerless_generation(
        &format!("sessions/{SESSION_ONE}"),
        GENERATION_THREE,
        true,
        false,
    );
    let catalog = DurableCatalog::open(sessions.open().unwrap().catalog);
    assert_eq!(
        catalog
            .session_head(session(SESSION_ONE))
            .unwrap()
            .storage_generation()
            .get(),
        2
    );
    assert!(!sessions.holds(&staging));
}

#[test]
fn fork_conversation_bytes_are_untouched_by_child_markerless_generation_cleanup() {
    let mut disk = fork_chain(&[]);
    let before = disk.nodes.clone();
    disk.create_markerless_generation(
        &format!("sessions/{SESSION_TWO}"),
        GENERATION_TWO,
        true,
        true,
    );
    assert!(disk.open().is_ok());
    assert!(disk.nodes == before);
    assert!(disk.expected.is_empty());
}

#[test]
fn markerless_generation_order_and_committed_marker_fail_closed_without_cleanup() {
    let entity = format!("agents/{AGENT_ONE}");
    let store = || {
        let mut disk = Disk::marked();
        disk.create_valid_g1_agent();
        disk
    };
    let mut gap = store();
    let staging = gap.create_markerless_generation(&entity, GENERATION_THREE, false, false);
    assert_corrupt(gap.open());
    assert!(gap.holds(&staging));

    let mut multiple = store();
    let first = multiple.create_markerless_generation(&entity, GENERATION_TWO, false, false);
    let second = multiple.create_markerless_generation(&entity, GENERATION_THREE, false, false);
    assert_corrupt(multiple.open());
    assert!(multiple.holds(&first) && multiple.holds(&second));

    let mut after = store();
    let staging = after.create_markerless_generation(&entity, GENERATION_TWO, false, false);
    after.create_agent_generation(AGENT_ONE, GENERATION_THREE, &g3_deleted(), None);
    assert_corrupt(after.open());
    assert!(after.holds(&staging));

    for head in [false, true] {
        let mut disk = store();
        let committed = disk.create_markerless_generation(&entity, GENERATION_TWO, head, false);
        disk.create_file(&join(&committed, "COMMITTED"), b"");
        assert_corrupt(disk.open());
        assert!(disk.holds(&committed));
    }
}

#[test]
fn markerless_shape_missing_visibility_and_terminal_heads_fail_closed_without_cleanup() {
    let entity = format!("agents/{AGENT_ONE}");
    let store = || {
        let mut disk = Disk::marked();
        disk.create_valid_g1_agent();
        let staging = disk.create_markerless_generation(&entity, GENERATION_TWO, false, false);
        (disk, staging)
    };
    let (mut unknown, staging) = store();
    unknown.create_file(&join(&staging, "unknown"), b"");
    assert_corrupt(unknown.open());
    assert!(unknown.holds(&staging));

    let (mut directory, staging) = store();
    directory.create_directory(&join(&staging, "head.json"));
    assert_corrupt(directory.open());
    assert!(directory.holds(&staging));

    let (mut oversized, staging) = store();
    oversized.create_file(&join(&staging, "head.json"), &vec![b'x'; 1_048_577]);
    assert_fails(oversized.open(), DurableOpenError::DurableStateTooLarge);
    assert!(oversized.holds(&staging));

    let (mut unreserved, staging) = store();
    unreserved.remove(&reservation_of(&entity));
    assert_corrupt(unreserved.open());
    assert!(unreserved.holds(&staging));

    let (mut unpublished, staging) = store();
    unpublished.remove(&join(&entity, "PUBLISHED"));
    assert_corrupt(unpublished.open());
    assert!(unpublished.holds(&staging));

    let mut deleted_agent = agent_chain(&[(
        AgentHeadDoc {
            status: AgentStatus::Deleted,
            ..agent_head_status_g2()
        },
        None,
    )]);
    let staging =
        deleted_agent.create_markerless_generation(&entity, GENERATION_THREE, false, false);
    assert_corrupt(deleted_agent.open());
    assert!(deleted_agent.holds(&staging));

    let mut deleted_session = session_chain(&[
        (session_head_archived_g2(), None),
        (session_g3(SessionLifecycle::Deleted), None),
    ]);
    let staging = deleted_session.create_markerless_generation(
        &format!("sessions/{SESSION_ONE}"),
        GENERATION_FOUR,
        false,
        false,
    );
    assert_corrupt(deleted_session.open());
    assert!(deleted_session.holds(&staging));
}

#[test]
fn markerless_link_and_wrong_mode_are_corrupt_without_cleanup() {
    let entity = format!("agents/{AGENT_ONE}");
    let mut linked = Disk::marked();
    linked.create_valid_g1_agent();
    let staging = linked.create_markerless_generation(&entity, GENERATION_TWO, false, false);
    linked.create_symlink(&join(&staging, "head.json"));
    assert_corrupt(linked.open());
    assert!(linked.holds(&staging));

    let mut wrong_mode = Disk::marked();
    wrong_mode.create_valid_g1_agent();
    let staging = wrong_mode.create_markerless_generation(&entity, GENERATION_TWO, true, false);
    wrong_mode.set_mode(&join(&staging, "head.json"), 0o100644);
    assert_corrupt(wrong_mode.open());
    assert!(wrong_mode.holds(&staging));
}

#[test]
fn multiple_staging_or_later_semantic_corruption_prevents_all_cleanup() {
    let store = || {
        let mut disk = Disk::marked();
        disk.create_valid_g1_agent();
        disk.create_agent(
            AGENT_TWO,
            &AgentHeadDoc {
                agent: agent(AGENT_TWO),
                ..agent_head()
            },
            &AgentDefinitionDoc {
                agent: agent(AGENT_TWO),
                ..agent_definition()
            },
        );
        let staging = disk.create_markerless_generation(
            &format!("agents/{AGENT_ONE}"),
            GENERATION_TWO,
            false,
            false,
        );
        (disk, staging)
    };
    let (mut multiple, first) = store();
    let second = multiple.create_markerless_generation(
        &format!("agents/{AGENT_TWO}"),
        GENERATION_TWO,
        false,
        false,
    );
    assert_corrupt(multiple.open());
    assert!(multiple.holds(&first) && multiple.holds(&second));

    let (mut later, first) = store();
    later.create_file(
        &join(&first_generation(&format!("agents/{AGENT_TWO}")), "head.json"),
        b"invalid later Agent head",
    );
    assert_corrupt(later.open());
    assert!(later.holds(&first));
}

// ---------------------------------------------------------------------------------------------
// Reserving
// ---------------------------------------------------------------------------------------------

fn candidate(value: u128) -> AgentId {
    AgentId::new(value).unwrap()
}

fn empty_inventory() -> ReservationInventory {
    ReservationInventory {
        recovered: BTreeSet::new(),
        created: BTreeSet::new(),
    }
}

fn reservation_path(id: AgentId) -> String {
    place(StoreLocation::Reservation(key_of(
        EntityKind::Agent,
        id.value(),
    )))
}

/// Why a scripted reservation ends without an identity.
#[derive(Clone, Copy, Debug, PartialEq)]
enum ScriptedError {
    Closing,
    TooLarge,
    EntropyUnavailable,
    Failed(ReservationFailure),
}

const UNBOUNDED: usize = 1_000_000;

/// A store that reserves scripted candidates of both kinds.
struct Reserver {
    disk: Disk,
    catalog: DurableCatalog,
    agents: ReservationInventory,
    sessions: ReservationInventory,
    /// Whether a poison has closed the admission.
    closed: bool,
}

impl Reserver {
    fn open(mut disk: Disk) -> Reserver {
        disk.faults.clear();
        Reserver::open_with_faults(disk, &[])
    }

    fn open_with_faults(mut disk: Disk, faults: &[(When, String)]) -> Reserver {
        let opened = disk.open().unwrap();
        disk.transient = true;
        disk.faults = faults.to_vec();
        Reserver {
            disk,
            catalog: DurableCatalog::open(opened.catalog),
            agents: ReservationInventory {
                recovered: opened.agent_reservations,
                created: BTreeSet::new(),
            },
            sessions: ReservationInventory {
                recovered: opened.session_reservations,
                created: BTreeSet::new(),
            },
            closed: false,
        }
    }

    /// Reserves the first free candidate; also says how many candidates were asked for.
    fn reserve_disturbed(
        &mut self,
        kind: EntityKind,
        script: &[Option<u128>],
        maximum: usize,
        mut disturb_readback: impl FnMut(&mut Disk, &str),
    ) -> (Result<u128, ScriptedError>, usize) {
        if self.closed {
            assert_eq!(
                admit_create_request(AdmissionWait::Closing),
                Admission::Rejected(DurableAgentCreateError::Closing)
            );
            return (Err(ScriptedError::Closing), 0);
        }
        let inventory = match kind {
            EntityKind::Agent => &mut self.agents,
            EntityKind::Session => &mut self.sessions,
        };
        if inventory.is_full(maximum) {
            return (Err(ScriptedError::TooLarge), 0);
        }
        let mut collisions = 0;
        let mut calls = 0;
        loop {
            let next = script.get(calls).copied().flatten();
            calls += 1;
            let Some(id) = next else {
                return (Err(ScriptedError::EntropyUnavailable), calls);
            };
            let was_present = inventory.contains(id);
            let mut stage = ReservationAttemptStage::Pending;
            let observation = self
                .disk
                .attempt_reservation_disturbed(
                    EntityKey { kind, id },
                    &mut stage,
                    &mut disturb_readback,
                )
                .unwrap();
            match reconcile_reservation(inventory, id, was_present, observation, &mut collisions) {
                Ok(Some(id)) => return (Ok(id), calls),
                Ok(None) => {}
                Err(failure) => {
                    let reserved = Err(map_reservation_failure(failure));
                    let result = continue_after_reservation(reserved, false).err().unwrap();
                    let effects = decide(
                        ActorEvent::Processed(result),
                        &mut self.catalog.published_agents,
                    );
                    self.closed = effects.contains(&ActorEffect::CloseReceiver);
                    return (Err(ScriptedError::Failed(failure)), calls);
                }
            }
        }
    }

    fn reserve(
        &mut self,
        kind: EntityKind,
        script: &[Option<u128>],
        maximum: usize,
    ) -> (Result<u128, ScriptedError>, usize) {
        self.reserve_disturbed(kind, script, maximum, |_, _| {})
    }
}

#[test]
fn a_marker_on_another_node_is_no_reservation() {
    let mut store = Reserver::open(Disk::marked());
    assert_eq!(
        store
            .reserve_disturbed(EntityKind::Agent, &[Some(5)], UNBOUNDED, |disk, path| disk
                .replace(path))
            .0,
        Err(ScriptedError::Failed(ReservationFailure::DurableStateCorrupt))
    );
    assert!(!store.agents.contains(5));
}

#[test]
fn test_reservation_success_collision_entropy_caps_and_reopen() {
    let mut store = Reserver::open(Disk::without_root());
    assert_eq!(
        store.reserve(EntityKind::Agent, &[Some(1)], UNBOUNDED).0,
        Ok(1)
    );
    assert_eq!(
        store.reserve(EntityKind::Session, &[Some(2)], UNBOUNDED).0,
        Ok(2)
    );
    assert!(store.catalog.agents.is_empty() && store.catalog.sessions.is_empty());
    for (kind, id) in [(EntityKind::Agent, 1), (EntityKind::Session, 2)] {
        assert!(store
            .disk
            .holds(&place(StoreLocation::Reservation(key_of(kind, id)))));
    }

    let mut disk = store.disk;
    disk.create_file(&reservation_path(candidate(11)), b"");
    let mut store = Reserver::open(disk);
    assert_eq!(
        store.reserve(EntityKind::Agent, &[Some(11), Some(12)], UNBOUNDED),
        (Ok(12), 2),
        "what was reserved before the store was opened collides"
    );
    let mut script = vec![Some(11); 31];
    script.push(Some(13));
    assert_eq!(
        store.reserve(EntityKind::Agent, &script, UNBOUNDED),
        (Ok(13), 32)
    );
    let mut script = vec![Some(11); 32];
    script.push(Some(14));
    assert_eq!(
        store.reserve(EntityKind::Agent, &script, UNBOUNDED),
        (
            Err(ScriptedError::Failed(
                ReservationFailure::CollisionAttemptsExhausted
            )),
            32
        ),
        "the candidate behind the last collision is not asked for"
    );
    assert_eq!(
        store.reserve(EntityKind::Agent, &[None], UNBOUNDED).0,
        Err(ScriptedError::EntropyUnavailable)
    );

    let mut store = Reserver::open(Disk::without_root());
    assert_eq!(store.reserve(EntityKind::Agent, &[Some(21)], 1).0, Ok(21));
    assert_eq!(
        store.reserve(EntityKind::Agent, &[Some(22)], 1),
        (Err(ScriptedError::TooLarge), 0)
    );
    assert_eq!(
        store.reserve(EntityKind::Session, &[Some(23)], UNBOUNDED).0,
        Ok(23)
    );
}

#[test]
fn test_reservation_faults_reconcile_inventory_and_close_test_admission() {
    let unavailable = Err(ScriptedError::Failed(ReservationFailure::StorageUnavailable));
    let path = reservation_path(candidate(31));
    let mut store = Reserver::open_with_faults(
        Disk::without_root(),
        &[(When::Before, format!("create {path}"))],
    );
    assert_eq!(
        store.reserve(EntityKind::Agent, &[Some(31)], UNBOUNDED).0,
        unavailable
    );
    assert!(!store.disk.holds(&path));

    for offset in 0..3 {
        let burned = 40 + offset;
        let path = reservation_path(candidate(burned));
        let fault = match offset {
            0 => format!("create {path}"),
            1 => format!("sync {path}"),
            _ => "sync reservations/agents".to_owned(),
        };
        let mut store =
            Reserver::open_with_faults(Disk::without_root(), &[(When::After, fault.clone())]);
        assert_eq!(
            store.reserve(EntityKind::Agent, &[Some(burned)], 1).0,
            unavailable,
            "{fault}"
        );
        assert_eq!(
            store.reserve(EntityKind::Agent, &[Some(50 + offset)], 1),
            (Err(ScriptedError::TooLarge), 0),
            "the burned identity fills the inventory: {fault}"
        );
        let mut reopened = Reserver::open(store.disk);
        assert_eq!(
            reopened.reserve(EntityKind::Agent, &[Some(burned), Some(60 + offset)], 2),
            (Ok(60 + offset), 2),
            "the burned identity collides: {fault}"
        );
    }

    for (number, fault, expected) in [
        (74, "unavailable", ReservationFailure::IndeterminatePoisoned),
        (75, "absent", ReservationFailure::DurableStateCorrupt),
        (76, "corrupt", ReservationFailure::DurableStateCorrupt),
    ] {
        let mut store = Reserver::open(Disk::without_root());
        let reserved = store.reserve_disturbed(
            EntityKind::Agent,
            &[Some(number)],
            UNBOUNDED,
            |disk, path| match fault {
                "unavailable" => {
                    disk.unreadable.insert(path.to_owned());
                }
                "absent" => disk.remove(path),
                _ => disk.create_file(path, b"corrupt"),
            },
        );
        assert_eq!(
            reserved,
            (Err(ScriptedError::Failed(expected)), 1),
            "{fault}"
        );
        assert!(!store.agents.contains(number), "{fault}");
        assert_eq!(
            store.reserve(EntityKind::Agent, &[Some(80)], UNBOUNDED).0,
            Err(ScriptedError::Closing),
            "{fault}"
        );
    }
}

#[test]
fn an_agent_search_counts_collisions_and_sees_what_was_reserved_before() {
    let mut disk = Disk::marked();
    let mut inventory = empty_inventory();
    assert_eq!(
        disk.reserve(&mut inventory, &[Some(candidate(1))]),
        Ok(candidate(1))
    );
    assert!(disk.holds(&reservation_path(candidate(1))));
    assert_eq!(inventory.created, BTreeSet::from([1]));

    disk.create_file(&reservation_path(candidate(11)), b"");
    let mut inventory = ReservationInventory {
        recovered: disk.open().unwrap().agent_reservations,
        created: BTreeSet::new(),
    };
    assert_eq!(inventory.recovered, BTreeSet::from([1, 11]));
    assert_eq!(
        disk.reserve(&mut inventory, &[Some(candidate(11)), Some(candidate(12))]),
        Ok(candidate(12))
    );

    let mut candidates = vec![Some(candidate(11)); 31];
    candidates.push(Some(candidate(13)));
    assert_eq!(disk.reserve(&mut inventory, &candidates), Ok(candidate(13)));

    let mut candidates = vec![Some(candidate(11)); 32];
    candidates.push(Some(candidate(14)));
    assert_eq!(
        disk.reserve(&mut inventory, &candidates),
        Err(DurableAgentCreateError::CollisionAttemptsExhausted)
    );
    assert!(!disk.holds(&reservation_path(candidate(14))));
    assert_eq!(
        disk.reserve(&mut inventory, &[None]),
        Err(DurableAgentCreateError::IdentityUnavailable)
    );
    assert!(inventory.is_full(4));
    assert!(!inventory.is_full(5));
}

#[test]
fn a_full_inventory_starts_no_search() {
    let mut inventory = empty_inventory();
    inventory.recovered = (1..=999_999).collect();
    inventory.created = BTreeSet::from([1_000_000]);
    assert_eq!(
        Disk::marked().reserve(&mut inventory, &[Some(candidate(2_000_000))]),
        Err(DurableAgentCreateError::DurableStateTooLarge)
    );
}

#[test]
fn an_agent_search_burns_what_a_fault_left_behind() {
    let id = candidate(31);
    let path = reservation_path(id);
    let mut before = Disk::marked();
    before.faults.push((When::Before, format!("create {path}")));
    let mut inventory = empty_inventory();
    assert_eq!(
        before.reserve(&mut inventory, &[Some(id)]),
        Err(DurableAgentCreateError::StorageUnavailable)
    );
    assert!(!before.holds(&path));
    assert!(inventory.created.is_empty());

    for operation in [
        format!("create {path}"),
        format!("sync {path}"),
        "sync reservations/agents".to_owned(),
    ] {
        let mut disk = Disk::marked();
        disk.faults.push((When::After, operation));
        let mut inventory = empty_inventory();
        assert_eq!(
            disk.reserve(&mut inventory, &[Some(id)]),
            Err(DurableAgentCreateError::StorageUnavailable)
        );
        assert!(inventory.contains(id.value()), "the identity is burned");
        disk.faults.clear();
        let mut reopened = ReservationInventory {
            recovered: disk.open().unwrap().agent_reservations,
            created: BTreeSet::new(),
        };
        assert_eq!(
            disk.reserve(&mut reopened, &[Some(id), Some(candidate(60))]),
            Ok(candidate(60))
        );
    }

    let mut foreign = Disk::marked();
    foreign.create_file(&path, b"");
    assert_eq!(
        foreign.reserve(&mut empty_inventory(), &[Some(id)]),
        Err(DurableAgentCreateError::InternalDispatchUnavailable),
        "a marker that nobody knows of is corruption"
    );
}

/// One attempt with these answers to its readback.
fn attempt_with_readback(readback: ZeroFileObservation) -> ReservationPhysicalObservation {
    let metadata = NodeMetadata {
        kind: NodeKind::Regular,
        mode: 0o100600,
        length: 0,
        identity: CleanupNodeIdentityShape {
            device: 1,
            inode: 2,
        },
    };
    let mut attempt = ReservationAttempt::begin(&mut ReservationAttemptStage::Pending).unwrap();
    for event in [
        ReservationEvent::Created,
        ReservationEvent::Performed(true),
        ReservationEvent::Handle(Ok(metadata)),
        ReservationEvent::Performed(true),
        ReservationEvent::Performed(true),
        ReservationEvent::ReadBack(readback),
    ] {
        attempt = attempt.handle(event, DirectorySync::Supported);
    }
    match attempt.action() {
        ReservationAction::Finished(observation) => observation,
        _ => panic!("the attempt is over"),
    }
}

#[test]
fn reservation_readbacks_are_judged_by_their_earliest_observation() {
    let metadata = NodeMetadata {
        kind: NodeKind::Regular,
        mode: 0o100600,
        length: 0,
        identity: CleanupNodeIdentityShape {
            device: 1,
            inode: 2,
        },
    };
    let file = OpenFileObservation {
        initial_path: Ok(metadata),
        opened: true,
        handle: Ok(metadata),
        path: Ok(metadata),
        final_handle: Ok(metadata),
        final_path: Ok(metadata),
    };
    let exact = ZeroFileObservation {
        file,
        read: Some(0),
    };
    let with = |file: OpenFileObservation| ZeroFileObservation {
        file,
        read: Some(0),
    };
    let absent: Lookup = Err(LookupError::NotFound);
    let unreadable: Lookup = Err(LookupError::Unreadable);
    let other = Ok(NodeMetadata {
        identity: CleanupNodeIdentityShape {
            device: 1,
            inode: 3,
        },
        ..metadata
    });
    let corrupt = ReservationPhysicalObservation::Corrupt;
    let indeterminate = ReservationPhysicalObservation::Indeterminate;
    for (readback, expected) in [
        (exact, ReservationPhysicalObservation::Created),
        (
            with(OpenFileObservation {
                initial_path: absent,
                ..file
            }),
            corrupt,
        ),
        (
            with(OpenFileObservation {
                initial_path: unreadable,
                ..file
            }),
            indeterminate,
        ),
        (
            with(OpenFileObservation {
                opened: false,
                ..file
            }),
            indeterminate,
        ),
        (
            with(OpenFileObservation {
                handle: unreadable,
                ..file
            }),
            indeterminate,
        ),
        (with(OpenFileObservation { path: absent, ..file }), corrupt),
        (
            with(OpenFileObservation {
                path: unreadable,
                ..file
            }),
            indeterminate,
        ),
        (with(OpenFileObservation { path: other, ..file }), corrupt),
        (
            ZeroFileObservation {
                file,
                read: Some(1),
            },
            corrupt,
        ),
        (ZeroFileObservation { file, read: None }, indeterminate),
        (
            with(OpenFileObservation {
                final_path: absent,
                ..file
            }),
            corrupt,
        ),
        (
            with(OpenFileObservation {
                final_handle: other,
                ..file
            }),
            corrupt,
        ),
    ] {
        assert_eq!(attempt_with_readback(readback), expected);
    }
}

#[test]
fn closing_wins_reservation_attempt_before_worker_cross_without_a_marker() {
    let mut disk = Disk::marked();
    let mut stage = ReservationAttemptStage::Pending;
    assert!(ReservationAttemptStage::try_cancel(&mut stage));
    let key = key_of(EntityKind::Agent, 5);
    assert_eq!(disk.attempt_reservation(key, &mut stage), None);
    assert!(disk.operations.is_empty());
    assert!(disk.is_empty("reservations/agents"));
}

// ---------------------------------------------------------------------------------------------
// Publishing
// ---------------------------------------------------------------------------------------------

/// A store with its owner, without its tasks.
struct Owner {
    disk: Disk,
    inventory: ReservationInventory,
    catalog: DurableCatalog,
    stopped: Option<DurableAgentCreateError>,
}

impl Owner {
    fn open(mut disk: Disk) -> Owner {
        let opened = disk.open().unwrap();
        Owner {
            disk,
            inventory: ReservationInventory {
                recovered: opened.agent_reservations,
                created: BTreeSet::new(),
            },
            catalog: DurableCatalog::open(opened.catalog),
            stopped: None,
        }
    }

    fn process(
        &mut self,
        candidates: &[Option<AgentId>],
        disturb: impl FnMut(&mut Disk, &PublicationAction, &mut DurableCommitBarrier),
    ) -> PublicationWorkResult {
        let reserved = self.disk.reserve(&mut self.inventory, candidates);
        let id = match continue_after_reservation(reserved, false) {
            Ok(id) => id,
            Err(result) => return result,
        };
        let head = AgentHeadDoc {
            agent: id,
            ..agent_head()
        };
        let definition = AgentDefinitionDoc {
            agent: id,
            ..agent_definition()
        };
        let made = first_agent_head(
            id,
            &build_agent_definition(&definition),
            AgentMetadata {
                revision: AgentMetadataRevision::new(1).unwrap(),
                name: head.name.to_owned(),
                description: None,
                updated_at: time(AGENT_CREATED),
            },
        );
        assert_same_head(&made.unwrap(), &build_agent_head(&head).unwrap());
        let mut barrier = DurableCommitBarrier::new();
        self.disk
            .publish_with(&head, &definition, &mut barrier, disturb)
    }

    fn create_disturbed(
        &mut self,
        candidates: &[Option<AgentId>],
        disturb: impl FnMut(&mut Disk, &PublicationAction, &mut DurableCommitBarrier),
    ) -> Result<AgentId, DurableAgentCreateError> {
        if let Some(error) = self.stopped {
            return Err(error);
        }
        assert_eq!(
            decide(
                ActorEvent::Received { closing: false },
                &mut self.catalog.published_agents
            )
            .len(),
            1
        );
        let result = self.process(candidates, disturb);
        let effects = decide(
            ActorEvent::Processed(result),
            &mut self.catalog.published_agents,
        );
        let mut answer = None;
        for effect in effects {
            match effect {
                ActorEffect::Settle(result) => {
                    answer = Some(result.map(|id| AgentId::new(id).unwrap()));
                    if let Some(Ok(id)) = answer {
                        assert!(
                            self.catalog.agent_head(id).is_some(),
                            "the success is installed before it is settled"
                        );
                    }
                }
                ActorEffect::RejectQueued(error) => {
                    assert!(answer.is_some(), "the current request is answered first");
                    self.stopped = Some(error);
                }
                ActorEffect::RequestClosing
                | ActorEffect::CloseReceiver
                | ActorEffect::Stop { clean: true } => {}
                _ => unreachable!(),
            }
        }
        answer.unwrap()
    }

    fn create(&mut self, id: AgentId) -> Result<AgentId, DurableAgentCreateError> {
        self.create_disturbed(&[Some(id)], |_, _, _| {})
    }
}

fn assert_same_head(one: &DurableAgentHead, other: &DurableAgentHead) {
    assert_eq!(one.agent_id(), other.agent_id());
    assert_eq!(one.storage_generation(), other.storage_generation());
    assert_eq!(
        one.previous_storage_generation(),
        other.previous_storage_generation()
    );
    assert_eq!(
        one.current_definition_revision(),
        other.current_definition_revision()
    );
    assert_eq!(
        one.current_definition_storage_generation(),
        other.current_definition_storage_generation()
    );
    assert!(one.metadata().is_same(other.metadata()));
    assert_eq!(one.status(), other.status());
    assert_eq!(one.created_at(), other.created_at());
}

#[test]
fn create_agent_publishes_exact_g1_installs_catalog_and_reopens() {
    let mut owner = Owner::open(Disk::without_root());
    let id = agent(AGENT_ONE);
    assert_eq!(owner.create(id), Ok(id));
    assert!(owner.stopped.is_none());
    let head = owner.catalog.agent_head(id).unwrap();
    assert_eq!(head.agent_id(), id);
    assert_eq!(head.status(), AgentStatus::Enabled);
    assert_eq!(head.storage_generation().get(), 1);
    assert_eq!(head.previous_storage_generation(), None);
    assert_eq!(head.current_definition_revision().get(), 1);
    assert_eq!(head.metadata().name, "Planner");
    assert_eq!(head.created_at(), time(1_785_751_200_123));
    let definition = owner.catalog.agent_current_definition(id).unwrap();
    assert!(owner.catalog.contains_agent_definition(id, revision(1)));

    let entity = format!("agents/{}", id.canonical_name());
    let first = first_generation(&entity);
    assert_eq!(
        owner.disk.operations,
        [
            format!("create {entity}"),
            "sync agents".to_owned(),
            format!("create {entity}/generations"),
            format!("sync {entity}"),
            format!("create {first}"),
            format!("sync {entity}/generations"),
            format!("create {first}/head.json"),
            format!("write {first}/head.json"),
            format!("sync {first}/head.json"),
            format!("create {first}/definition.json"),
            format!("write {first}/definition.json"),
            format!("sync {first}/definition.json"),
            format!("sync {first}"),
            format!("read {first}/head.json"),
            format!("read {first}/definition.json"),
            format!("create {first}/COMMITTED"),
            format!("sync {first}/COMMITTED"),
            format!("sync {first}"),
            format!("read {first}/COMMITTED"),
            format!("read {first}/head.json"),
            format!("read {first}/definition.json"),
            format!("create {entity}/PUBLISHED"),
            format!("sync {entity}/PUBLISHED"),
            format!("sync {entity}"),
            "sync agents".to_owned(),
            format!("recover {entity}/PUBLISHED"),
            format!("recover {first}/head.json"),
            format!("recover {first}/definition.json"),
        ]
    );
    for (path, content) in [
        (
            join(&first, "head.json"),
            format!("{:?}", Document::AgentHead(agent_head())),
        ),
        (
            join(&first, "definition.json"),
            format!("{:?}", Document::AgentDefinition(agent_definition())),
        ),
        (join(&first, "COMMITTED"), String::new()),
        (join(&entity, "PUBLISHED"), String::new()),
    ] {
        assert_eq!(
            owner.disk.nodes[&path].bytes,
            content.into_bytes(),
            "{path}"
        );
    }

    let reopened = DurableCatalog::open(owner.disk.open().unwrap().catalog);
    assert_same_head(reopened.agent_head(id).unwrap(), head);
    let reread = reopened.agent_current_definition(id).unwrap();
    assert_eq!(reread.agent_id, definition.agent_id);
    assert_eq!(reread.revision, definition.revision);
    assert_eq!(reread.created_at, definition.created_at);
    assert_eq!(reread.execution, definition.execution);
}

#[test]
fn created_agents_stay_readable_over_later_requests() {
    let mut disk = Disk::marked();
    disk.create_valid_g1_agent();
    let mut owner = Owner::open(disk);
    let mut made = Vec::new();
    for value in [7, 8, 9] {
        let id = candidate(value);
        assert_eq!(owner.create(id), Ok(id));
        made.push((id, owner.catalog.agent_head(id).unwrap().clone()));
    }
    let failed = candidate(10);
    owner.disk.transient = true;
    owner
        .disk
        .faults
        .push((When::Before, format!("create agents/{}", failed.canonical_name())));
    assert_eq!(
        owner.create(failed),
        Err(DurableAgentCreateError::StorageUnavailable)
    );
    // An identity that is taken is never handed out again, and a recovered Agent is not replaced.
    assert_eq!(
        owner.create_disturbed(
            &[
                Some(candidate(8)),
                Some(failed),
                Some(agent(AGENT_ONE)),
                Some(candidate(11))
            ],
            |_, _, _| {}
        ),
        Ok(candidate(11))
    );
    for (id, head) in &made {
        assert_same_head(owner.catalog.agent_head(*id).unwrap(), head);
    }
    assert!(owner.catalog.agent_head(failed).is_none());
    assert!(!owner
        .catalog
        .published_agents
        .contains_key(&agent(AGENT_ONE).value()));
    let reopened = DurableCatalog::open(owner.disk.open().unwrap().catalog);
    for (id, head) in &made {
        assert_same_head(reopened.agent_head(*id).unwrap(), head);
    }
}

#[test]
fn create_agent_collision_tracer_retries_inside_the_same_request() {
    let mut disk = Disk::marked();
    disk.create_file(&reservation_path(agent(AGENT_ONE)), b"");
    let mut owner = Owner::open(disk);
    assert_eq!(
        owner.create_disturbed(
            &[Some(agent(AGENT_ONE)), Some(agent(AGENT_TWO))],
            |_, _, _| {}
        ),
        Ok(agent(AGENT_TWO))
    );
    assert!(owner.catalog.agent_head(agent(AGENT_ONE)).is_none());
    assert!(owner.catalog.agent_head(agent(AGENT_TWO)).is_some());
}

#[test]
fn publication_fault_certainty_keeps_ordinary_failures_live_and_closes_after_success() {
    let id = candidate(41);
    let entity = format!("agents/{}", id.canonical_name());
    let first = first_generation(&entity);
    // The directories are synced before `PUBLISHED` too, so every fault from there on is armed late.
    for (when, operation, publishes, closes) in [
        (When::Before, format!("create {entity}"), false, false),
        (When::After, format!("write {first}/head.json"), false, false),
        (When::After, format!("read {first}/head.json"), false, false),
        (When::After, format!("create {first}/COMMITTED"), true, true),
        (When::After, format!("sync {first}/COMMITTED"), true, true),
        (When::Before, format!("create {entity}/PUBLISHED"), false, false),
        (When::After, format!("create {entity}/PUBLISHED"), true, false),
        (When::After, format!("sync {entity}/PUBLISHED"), true, true),
        (When::After, format!("sync {entity}"), true, true),
        (When::After, "sync agents".to_owned(), true, true),
        (When::After, format!("recover {first}/head.json"), true, true),
    ] {
        let mut disk = Disk::marked();
        disk.transient = true;
        let late = operation == format!("sync {entity}") || operation == "sync agents";
        if !late {
            disk.faults.push((when, operation.clone()));
        }
        let mut owner = Owner::open(disk);
        let result = owner.create_disturbed(&[Some(id)], |disk, action, _| {
            if late
                && matches!(
                    action,
                    PublicationAction::Perform(PublicationStep::CreateFile(
                        StoreLocation::Published(_)
                    ))
                )
            {
                disk.faults.push((when, operation.clone()));
            }
        });
        assert!(owner.disk.faults.is_empty(), "{operation} was reached");
        if publishes {
            assert_eq!(result, Ok(id), "{operation}");
            assert_eq!(
                owner.stopped,
                closes.then_some(DurableAgentCreateError::Closing),
                "{operation}"
            );
        } else {
            assert_eq!(result, Err(DurableAgentCreateError::StorageUnavailable));
            assert!(owner.stopped.is_none());
            assert!(!owner.disk.holds(&entity), "the staging is removed");
            assert!(owner.disk.holds(&reservation_path(id)));
        }
        if !closes {
            assert_eq!(owner.create(candidate(42)), Ok(candidate(42)));
        } else {
            assert_eq!(
                owner.create(candidate(42)),
                Err(DurableAgentCreateError::Closing)
            );
        }
        let reopened = DurableCatalog::open(owner.disk.open().unwrap().catalog);
        assert_eq!(reopened.agent_head(id).is_some(), publishes);
        assert_eq!(reopened.agent_head(candidate(42)).is_some(), !closes);
    }
}

#[test]
fn published_create_ambiguity_has_one_exact_reconciliation_suffix() {
    let id = candidate(53);
    let entity = format!("agents/{}", id.canonical_name());
    let first = first_generation(&entity);
    let mut disk = Disk::marked();
    disk.transient = true;
    disk.faults
        .push((When::After, format!("create {entity}/PUBLISHED")));
    let mut owner = Owner::open(disk);
    assert_eq!(owner.create(id), Ok(id));
    let start = owner
        .disk
        .operations
        .iter()
        .position(|operation| *operation == format!("create {entity}/PUBLISHED"))
        .unwrap();
    assert_eq!(
        owner.disk.operations[start..],
        [
            format!("create {entity}/PUBLISHED"),
            format!("read {entity}/PUBLISHED"),
            format!("sync {entity}/PUBLISHED"),
            format!("sync {entity}"),
            "sync agents".to_owned(),
            format!("recover {entity}/PUBLISHED"),
            format!("recover {first}/head.json"),
            format!("recover {first}/definition.json"),
        ]
    );
}

#[test]
fn a_failed_final_readback_repeats_the_marker_durability_once() {
    let id = candidate(77);
    let entity = format!("agents/{}", id.canonical_name());
    let first = first_generation(&entity);
    let mut disk = Disk::marked();
    disk.transient = true;
    disk.faults
        .push((When::After, format!("recover {first}/head.json")));
    let mut owner = Owner::open(disk);
    assert_eq!(owner.create(id), Ok(id));
    assert_eq!(owner.stopped, Some(DurableAgentCreateError::Closing));
    let start = owner
        .disk
        .operations
        .iter()
        .position(|operation| *operation == format!("create {entity}/PUBLISHED"))
        .unwrap();
    assert_eq!(
        owner.disk.operations[start..],
        [
            format!("create {entity}/PUBLISHED"),
            format!("sync {entity}/PUBLISHED"),
            format!("sync {entity}"),
            "sync agents".to_owned(),
            format!("recover {entity}/PUBLISHED"),
            format!("recover {first}/head.json"),
            format!("recover {first}/definition.json"),
            format!("read {entity}/PUBLISHED"),
            format!("sync {entity}/PUBLISHED"),
            format!("sync {entity}"),
            "sync agents".to_owned(),
            format!("recover {entity}/PUBLISHED"),
            format!("recover {first}/head.json"),
            format!("recover {first}/definition.json"),
        ]
    );
}

#[test]
fn exact_not_published_cleanup_io_failure_settles_ordinary_then_closes() {
    let id = candidate(61);
    let entity = format!("agents/{}", id.canonical_name());
    let mut disk = Disk::marked();
    disk.faults
        .push((When::Before, format!("create {entity}/PUBLISHED")));
    disk.faults.push((
        When::Before,
        format!("remove {}/COMMITTED", first_generation(&entity)),
    ));
    let mut owner = Owner::open(disk);
    assert_eq!(
        owner.create(id),
        Err(DurableAgentCreateError::StorageUnavailable)
    );
    assert_eq!(owner.stopped, Some(DurableAgentCreateError::Closing));
    assert!(owner.disk.holds(&entity));
    owner.disk.faults.clear();
    assert!(owner.disk.open().unwrap().catalog.agents.is_empty());
    assert!(!owner.disk.holds(&entity));
}

#[test]
fn corrupt_and_indeterminate_publication_observations_poison_without_cleanup() {
    let id = candidate(51);
    let entity = format!("agents/{}", id.canonical_name());
    let head = join(&first_generation(&entity), "head.json");
    let published = join(&entity, "PUBLISHED");

    let mut corrupt = Owner::open(Disk::marked());
    let result = corrupt.create_disturbed(&[Some(id)], |disk, action, _| {
        if matches!(action, PublicationAction::Perform(PublicationStep::Recover)) {
            disk.create_file(&head, b"corrupt");
        }
    });
    assert_eq!(
        result,
        Err(DurableAgentCreateError::InternalDispatchUnavailable)
    );
    assert_eq!(
        corrupt.stopped,
        Some(DurableAgentCreateError::InternalDispatchUnavailable)
    );
    assert!(corrupt.disk.holds(&published));
    assert_corrupt(corrupt.disk.open());

    let mut indeterminate = Owner::open(Disk::marked());
    let result = indeterminate.create_disturbed(&[Some(id)], |disk, action, _| {
        if matches!(action, PublicationAction::Perform(PublicationStep::Recover)) {
            disk.unreadable.insert(published.clone());
        }
    });
    assert_eq!(
        result,
        Err(DurableAgentCreateError::InternalDispatchUnavailable)
    );
    assert!(indeterminate.disk.holds(&entity));
    assert!(!indeterminate
        .disk
        .operations
        .iter()
        .any(|operation| operation.starts_with("remove ")));
    indeterminate.disk.unreadable.clear();
    let reopened = DurableCatalog::open(indeterminate.disk.open().unwrap().catalog);
    assert!(reopened.agent_head(id).is_some());
}

#[test]
fn closing_before_commit_barrier_cleans_operation_staging_and_keeps_reservation() {
    let id = agent(AGENT_ONE);
    let entity = format!("agents/{AGENT_ONE}");
    let mut disk = Disk::marked();
    disk.create_file(&reservation_path(id), b"");
    // However late the cancellation comes before the barrier, nothing is left but the reservation.
    for cancel_at in 0..17 {
        let mut barrier = DurableCommitBarrier::new();
        let mut count = 0;
        let mut won = false;
        let result = disk.publish_with(
            &agent_head(),
            &agent_definition(),
            &mut barrier,
            |_, _, barrier| {
                if count == cancel_at {
                    won = barrier.try_cancel();
                }
                count += 1;
            },
        );
        assert!(won, "the barrier is not crossed yet");
        assert!(barrier.is_cancelled());
        assert!(matches!(
            result,
            PublicationWorkResult::Ordinary {
                error: DurableAgentCreateError::Closing,
                close_required: false
            }
        ));
        assert!(!disk.holds(&entity));
        assert!(disk.holds(&reservation_path(id)));
        assert!(!disk
            .operations
            .iter()
            .any(|operation| operation.contains("COMMITTED")));
    }
}

#[test]
fn cancellation_behind_the_barrier_does_not_stop_a_publication() {
    let mut disk = Disk::marked();
    disk.create_file(&reservation_path(agent(AGENT_ONE)), b"");
    let mut barrier = DurableCommitBarrier::new();
    let result = disk.publish_with(
        &agent_head(),
        &agent_definition(),
        &mut barrier,
        |_, action, barrier| {
            if let PublicationAction::Perform(PublicationStep::CreateFile(
                StoreLocation::Committed(_, _),
            )) = action
            {
                assert!(!barrier.try_cancel());
            }
        },
    );
    assert!(matches!(
        result,
        PublicationWorkResult::Published {
            close_required: false,
            ..
        }
    ));
    assert!(disk.open().unwrap().catalog.agents.len() == 1);
}

#[test]
fn native_process_abort_reopens_agent_create_as_invisible_or_published() {
    let id = agent(AGENT_ONE);
    let mut total = 0;
    let mut stop_at = 0;
    // A crash before every single action leaves a store that opens: without the Agent, or with it.
    while total == 0 || stop_at < total {
        let mut disk = Disk::marked();
        disk.create_file(&reservation_path(id), b"");
        let mut count = 0;
        let mut snapshot = None;
        let mut barrier = DurableCommitBarrier::new();
        disk.publish_with(
            &agent_head(),
            &agent_definition(),
            &mut barrier,
            |disk, _, _| {
                if count == stop_at {
                    snapshot = Some(disk.nodes.clone());
                }
                count += 1;
            },
        );
        total = count;
        disk.nodes = snapshot.unwrap();
        let published = disk.holds(&format!("agents/{AGENT_ONE}/PUBLISHED"));
        assert_eq!(disk.open().unwrap().catalog.agents.len(), usize::from(published));
        assert_eq!(disk.holds(&format!("agents/{AGENT_ONE}")), published);
        stop_at += 1;
    }
    assert!(total > 25);
}

#[test]
fn an_existing_entity_is_never_taken_over() {
    let mut disk = Disk::marked();
    disk.create_valid_g1_agent();
    let before = disk.nodes.clone();
    assert!(matches!(
        disk.publish(&agent_head(), &agent_definition()),
        PublicationWorkResult::Poisoned
    ));
    assert!(disk.nodes == before);
}

#[test]
fn documents_that_cannot_be_published_touch_nothing() {
    let barrier = DurableCommitBarrier::new();
    let begin = |head: Result<Vec<u8>, DurableStoreCodecError>,
                 definition: Result<Vec<u8>, DurableStoreCodecError>,
                 doc: AgentHeadDoc| {
        let publication = Publication::begin(
            &build_agent_definition(&agent_definition()),
            &build_agent_head(&doc).unwrap(),
            head,
            definition,
            DirectorySync::Supported,
            StoreLimits::production(),
            &barrier,
        );
        assert!(publication.is_finished());
        publication.into_result()
    };
    assert!(matches!(
        begin(
            Err(DurableStoreCodecError::DocumentTooLarge),
            Ok(Vec::new()),
            agent_head()
        ),
        PublicationWorkResult::Ordinary {
            error: DurableAgentCreateError::DurableStateTooLarge,
            close_required: false
        }
    ));
    assert!(matches!(
        begin(
            Ok(Vec::new()),
            Err(DurableStoreCodecError::InvalidSemantic),
            agent_head()
        ),
        PublicationWorkResult::Ordinary {
            error: DurableAgentCreateError::StorageUnavailable,
            close_required: false
        }
    ));
    assert!(matches!(
        begin(
            Ok(Vec::new()),
            Ok(Vec::new()),
            AgentHeadDoc {
                status: AgentStatus::Disabled,
                ..agent_head()
            }
        ),
        PublicationWorkResult::Poisoned
    ));
}
