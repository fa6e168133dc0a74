//! The physical scan of one Agent or Session directory.
//!
//! `PUBLISHED` is the only branch point: an observed marker, even an invalid one, never falls through
//! to unpublished staging.

use crate::generation::StorageGeneration;
use crate::generation_scan;
use crate::generation_scan::{
    scan_physical_generation_chain, scan_unpublished_generation, CommittedGenerationFiles,
    GenerationEntryObservation, MarkerlessGenerationFiles, PhysicalGenerationScan,
    UnpublishedGenerationFiles,
};
use crate::listing;
use crate::listing::{
    contains_named_entry, has_unknown_child, read_entries_bounded, DirectoryListing,
    AGENT_ENTITY_ENTRY_CAP, CONVERSATION_FILE, GENERATIONS_DIRECTORY, PUBLISHED_FILE,
    SESSION_ENTITY_ENTRY_CAP,
};
use crate::open_error::DurableOpenError;
use crate::physical;
use crate::physical::{
    metadata_without_following, validate_directory_entry, validate_regular_entry_path,
    validate_unpublished_conversation_physical_shape, validate_zero_regular_file,
    CleanupNodeIdentityShape, CleanupRegularFileShape, Lookup, StoreLimits, ZeroFileObservation,
};
use crate::scan_errors;
use crate::scan_errors::PhysicalScanErrors;
use vstd::prelude::*;

verus! {

/// The two kinds of entity that a store holds.
#[derive(Clone, Copy, Debug, PartialEq, Eq, Structural)]
pub enum EntityKind {
    Agent,
    Session,
}

/// What one entity directory shows: its names and the nodes behind the known ones.
pub struct EntityObservation {
    pub listing: DirectoryListing<Vec<u8>>,
    pub entity: Lookup,
    pub published: ZeroFileObservation,
    /// The `generations` directory before it is entered, while it is inspected, and afterwards.
    pub generations_entry: Lookup,
    pub generations_node: Lookup,
    pub generations_exit: Lookup,
    pub generations: DirectoryListing<GenerationEntryObservation>,
    /// The conversation while staging is inspected, and afterwards.
    pub conversation_node: Lookup,
    pub conversation_exit: Lookup,
}

/// The `generations` directory of an unpublished entity.
#[derive(Clone, Copy, PartialEq, Eq, Structural)]
pub struct UnpublishedGenerations {
    pub shape: CleanupNodeIdentityShape,
    pub generation: Option<UnpublishedGenerationFiles>,
}

/// Exact markerless new-entity facts.
#[derive(Clone, Copy, PartialEq, Eq, Structural)]
pub struct UnpublishedEntityFiles {
    pub entity_shape: CleanupNodeIdentityShape,
    pub generations: Option<UnpublishedGenerations>,
    pub conversation_shape: Option<CleanupRegularFileShape>,
}

impl UnpublishedEntityFiles {
    /// The staged first generation, if there is one.
    pub open spec fn spec_generation(self) -> Option<UnpublishedGenerationFiles> {
        match self.generations {
            Some(generations) => generations.generation,
            None => None,
        }
    }

    pub open spec fn is_committed(self) -> bool {
        self.spec_generation() matches Some(generation) && generation.committed_shape is Some
    }

    pub fn generation(&self) -> (generation: Option<UnpublishedGenerationFiles>)
        ensures
            generation == self.spec_generation(),
    {
        match self.generations {
            Some(generations) => generations.generation,
            None => None,
        }
    }

    /// Whether the staged generation carries a `COMMITTED` marker.
    pub fn has_committed(&self) -> (result: bool)
        ensures
            result == self.is_committed(),
    {
        match self.generation() {
            Some(generation) => generation.committed_shape.is_some(),
            None => false,
        }
    }
}

/// The completed physical scan of one entity directory.
pub enum ScannedEntity {
    Published(PhysicalGenerationScan),
    Unpublished(UnpublishedEntityFiles),
}

/// A completed scan, with its lists as sequences.
pub enum EntityScanModel {
    Published {
        committed: Seq<CommittedGenerationFiles>,
        markerless: Option<MarkerlessGenerationFiles>,
    },
    Unpublished(UnpublishedEntityFiles),
}

impl View for ScannedEntity {
    type V = EntityScanModel;

    open spec fn view(&self) -> EntityScanModel {
        match self {
            ScannedEntity::Published(scan) => EntityScanModel::Published {
                committed: scan.committed@,
                markerless: scan.markerless,
            },
            ScannedEntity::Unpublished(files) => EntityScanModel::Unpublished(*files),
        }
    }
}

impl EntityScanModel {
    /// The generations whose documents are read: the committed ones, in order. Markerless documents
    /// are never read.
    pub open spec fn readable(self) -> Seq<StorageGeneration> {
        match self {
            EntityScanModel::Published { committed, .. } => committed.map_values(
                |files: CommittedGenerationFiles| files.generation,
            ),
            EntityScanModel::Unpublished(files) => if files.is_committed() {
                seq![StorageGeneration::of(1)]
            } else {
                seq![]
            },
        }
    }
}

impl ScannedEntity {
    /// The generations whose documents are to be read.
    pub fn readable_generations(&self) -> (generations: Vec<StorageGeneration>)
        ensures
            generations@ == self@.readable(),
    {
        let mut generations: Vec<StorageGeneration> = Vec::new();
        match self {
            ScannedEntity::Published(scan) => {
                let mut i: usize = 0;
                while i < scan.committed.len()
                    invariant
                        i <= scan.committed@.len(),
                        generations@ == self@.readable().take(i as int),
                        self@.readable().len() == scan.committed@.len(),
                        forall|k: int|
                            0 <= k < scan.committed@.len() ==> #[trigger] self@.readable()[k]
                                == scan.committed@[k].generation,
                    decreases scan.committed.len() - i,
                {
                    generations.push(scan.committed[i].generation);
                    assert(generations@ =~= self@.readable().take(i + 1));
                    i = i + 1;
                }
            },
            ScannedEntity::Unpublished(files) => {
                if files.has_committed() {
                    generations.push(StorageGeneration::first());
                }
            },
        }
        assert(generations@ =~= self@.readable());
        generations
    }
}

pub open spec fn scanned(result: Result<ScannedEntity, DurableOpenError>) -> Result<
    EntityScanModel,
    DurableOpenError,
> {
    match result {
        Ok(entity) => Ok(entity@),
        Err(error) => Err(error),
    }
}

/// What the inspection of staging observes, beside the entity directory itself.
pub struct StagingFacts {
    pub generations_node: Result<CleanupNodeIdentityShape, DurableOpenError>,
    pub generation: Result<Option<UnpublishedGenerationFiles>, DurableOpenError>,
    pub conversation: Result<CleanupRegularFileShape, DurableOpenError>,
}

pub open spec fn staging_facts(
    observation: EntityObservation,
    generation_maximum: usize,
    limits: StoreLimits,
) -> StagingFacts {
    StagingFacts {
        generations_node: match physical::seen(observation.generations_node) {
            Ok(metadata) => Ok(metadata.identity),
            Err(error) => Err(error),
        },
        generation: generation_scan::unpublished_generation_outcome(
            observation.generations,
            generation_maximum,
            limits,
        ),
        conversation: physical::conversation_shape(observation.conversation_node, limits),
    }
}

/// The generation that staging is known to hold once both scans are over.
pub open spec fn staged_generation(facts: StagingFacts, enters: bool) -> Option<
    UnpublishedGenerationFiles,
> {
    if enters && facts.generation is Ok {
        facts.generation->Ok_0
    } else {
        None
    }
}

/// The errors of staging, in the order in which they are recorded. The last three are relations
/// between the two completed scans, rather than reasons to cut either one short.
pub open spec fn staging_errors(
    facts: StagingFacts,
    enters: bool,
    has_conversation: bool,
    kind: EntityKind,
) -> Seq<DurableOpenError> {
    let generation = staged_generation(facts, enters);
    (if enters {
        scan_errors::noted(facts.generations_node) + scan_errors::noted(facts.generation)
    } else {
        seq![]
    }) + (if has_conversation {
        scan_errors::noted(facts.conversation)
    } else {
        seq![]
    }) + scan_errors::corrupt_if(has_conversation && kind is Agent) + scan_errors::corrupt_if(
        has_conversation && generation is None,
    ) + scan_errors::corrupt_if(
        kind is Session && !has_conversation && (generation matches Some(files)
            && files.committed_shape is Some),
    )
}

/// What the inspection of staging amounts to.
pub open spec fn unpublished_entity_outcome(
    observation: EntityObservation,
    enters: bool,
    has_conversation: bool,
    kind: EntityKind,
    generation_maximum: usize,
    limits: StoreLimits,
) -> Result<UnpublishedEntityFiles, DurableOpenError> {
    let facts = staging_facts(observation, generation_maximum, limits);
    match physical::seen(observation.entity) {
        Err(error) => Err(error),
        Ok(metadata) => scan_errors::settled(
            staging_errors(facts, enters, has_conversation, kind),
            UnpublishedEntityFiles {
                entity_shape: metadata.identity,
                generations: if enters {
                    Some(
                        UnpublishedGenerations {
                            shape: facts.generations_node->Ok_0,
                            generation: facts.generation->Ok_0,
                        },
                    )
                } else {
                    None
                },
                conversation_shape: if has_conversation {
                    Some(facts.conversation->Ok_0)
                } else {
                    None
                },
            },
        ),
    }
}

pub fn scan_unpublished_entity(
    observation: &EntityObservation,
    enters: bool,
    has_conversation: bool,
    kind: EntityKind,
    generation_maximum: usize,
    limits: StoreLimits,
) -> (result: Result<UnpublishedEntityFiles, DurableOpenError>)
    ensures
        result == unpublished_entity_outcome(
            *observation,
            enters,
            has_conversation,
            kind,
            generation_maximum,
            limits,
        ),
{
    let ghost facts = staging_facts(*observation, generation_maximum, limits);
    let entity_shape = match metadata_without_following(observation.entity) {
        Ok(metadata) => metadata.identity,
        Err(error) => return Err(error),
    };
    let mut errors = PhysicalScanErrors::new();
    let mut shape: Option<CleanupNodeIdentityShape> = None;
    let mut generation: Option<UnpublishedGenerationFiles> = None;
    if enters {
        if let Some(metadata) = errors.record(
            metadata_without_following(observation.generations_node),
        ) {
            shape = Some(metadata.identity);
        }
        if let Some(found) = errors.record(
            scan_unpublished_generation(&observation.generations, generation_maximum, limits),
        ) {
            generation = found;
        }
    }
    let ghost generation_part = if enters {
        scan_errors::noted(facts.generations_node) + scan_errors::noted(facts.generation)
    } else {
        seq![]
    };
    assert(errors@ =~= generation_part);
    let mut conversation_shape: Option<CleanupRegularFileShape> = None;
    if has_conversation {
        conversation_shape =
        errors.record(
            validate_unpublished_conversation_physical_shape(observation.conversation_node, limits),
        );
    }
    let ghost conversation_part = if has_conversation {
        scan_errors::noted(facts.conversation)
    } else {
        seq![]
    };
    assert(errors@ =~= generation_part + conversation_part);
    let is_session = matches!(kind, EntityKind::Session);
    let has_committed = match generation {
        Some(files) => files.committed_shape.is_some(),
        None => false,
    };
    errors.note_corrupt_if(has_conversation && !is_session);
    errors.note_corrupt_if(has_conversation && generation.is_none());
    errors.note_corrupt_if(is_session && !has_conversation && has_committed);
    proof {
        assert(generation == staged_generation(facts, enters));
        assert(errors@ == staging_errors(facts, enters, has_conversation, kind));
    }
    match errors.finish() {
        Err(error) => return Err(error),
        Ok(()) => {},
    }
    assert(staging_errors(facts, enters, has_conversation, kind).len() == 0);
    let generations = match shape {
        Some(shape) => Some(UnpublishedGenerations { shape, generation }),
        None => None,
    };
    Ok(UnpublishedEntityFiles { entity_shape, generations, conversation_shape })
}

impl EntityKind {
    pub open spec fn entry_cap(self) -> usize {
        match self {
            EntityKind::Agent => AGENT_ENTITY_ENTRY_CAP,
            EntityKind::Session => SESSION_ENTITY_ENTRY_CAP,
        }
    }

    /// How many entries an entity directory may hold.
    pub fn entity_entry_cap(self) -> (cap: usize)
        ensures
            cap == self.entry_cap(),
    {
        match self {
            EntityKind::Agent => AGENT_ENTITY_ENTRY_CAP,
            EntityKind::Session => SESSION_ENTITY_ENTRY_CAP,
        }
    }
}

/// The names in an entity directory.
pub struct EntityNames {
    pub published: bool,
    pub generations: bool,
    pub conversation: bool,
    pub unknown: bool,
}

pub open spec fn entity_names(names: Seq<Vec<u8>>, kind: EntityKind) -> EntityNames {
    EntityNames {
        published: listing::has_name(names, PUBLISHED_FILE),
        generations: listing::has_name(names, GENERATIONS_DIRECTORY),
        conversation: kind is Session && listing::has_name(names, CONVERSATION_FILE),
        unknown: listing::unknown_child(
            names,
            PUBLISHED_FILE,
            GENERATIONS_DIRECTORY,
            if kind is Session {
                CONVERSATION_FILE
            } else {
                GENERATIONS_DIRECTORY
            },
        ),
    }
}

fn classify_entity_names(names: &Vec<Vec<u8>>, kind: EntityKind) -> (result: EntityNames)
    ensures
        result == entity_names(names@, kind),
{
    let is_session = matches!(kind, EntityKind::Session);
    let third = if is_session {
        CONVERSATION_FILE
    } else {
        GENERATIONS_DIRECTORY
    };
    EntityNames {
        published: contains_named_entry(names, PUBLISHED_FILE),
        generations: contains_named_entry(names, GENERATIONS_DIRECTORY),
        conversation: is_session && contains_named_entry(names, CONVERSATION_FILE),
        unknown: has_unknown_child(names, PUBLISHED_FILE, GENERATIONS_DIRECTORY, third),
    }
}

/// Whether the `generations` directory can be entered.
pub open spec fn enters_generations(observation: EntityObservation, names: EntityNames) -> bool {
    &&& names.generations
    &&& observation.generations_entry matches Ok(metadata)
    &&& metadata.kind is Directory
}

/// The outcome of the generation chain of a published entity.
pub open spec fn published_outcome(
    observation: EntityObservation,
    generation_maximum: usize,
    limits: StoreLimits,
) -> Result<EntityScanModel, DurableOpenError> {
    match generation_scan::chain_outcome(observation.generations, generation_maximum, limits) {
        Ok(chain) => Ok(
            EntityScanModel::Published { committed: chain.committed, markerless: chain.markerless },
        ),
        Err(error) => Err(error),
    }
}

/// The outcome of the staging of an unpublished entity.
pub open spec fn staged_outcome(
    observation: EntityObservation,
    names: EntityNames,
    kind: EntityKind,
    generation_maximum: usize,
    limits: StoreLimits,
) -> Result<EntityScanModel, DurableOpenError> {
    match unpublished_entity_outcome(
        observation,
        enters_generations(observation, names),
        names.conversation,
        kind,
        generation_maximum,
        limits,
    ) {
        Ok(files) => Ok(EntityScanModel::Unpublished(files)),
        Err(error) => Err(error),
    }
}

/// The errors of an entity directory, in the order in which they are recorded.
pub open spec fn entity_errors(
    observation: EntityObservation,
    names: EntityNames,
    kind: EntityKind,
    generation_maximum: usize,
    limits: StoreLimits,
) -> Seq<DurableOpenError> {
    (if names.generations {
        scan_errors::noted(physical::seen(observation.generations_entry))
    } else {
        seq![]
    }) + (if !names.published {
        scan_errors::noted(staged_outcome(observation, names, kind, generation_maximum, limits))
    } else if enters_generations(observation, names) {
        scan_errors::noted(published_outcome(observation, generation_maximum, limits))
    } else {
        seq![]
    }) + (if names.published {
        scan_errors::noted(observation.published.outcome())
    } else {
        seq![]
    }) + (if names.generations {
        scan_errors::noted(
            physical::directory_entry(
                observation.generations_exit,
                DurableOpenError::DurableStateCorrupt,
            ),
        )
    } else {
        seq![]
    }) + (if names.conversation {
        scan_errors::noted(
            physical::regular_entry(
                observation.conversation_exit,
                DurableOpenError::DurableStateCorrupt,
            ),
        )
    } else {
        seq![]
    }) + scan_errors::corrupt_if(
        names.unknown || (names.published && (!names.generations || (kind is Session
            && !names.conversation))),
    )
}

/// What the scan of an entity directory amounts to.
#[verifier::opaque]
pub open spec fn entity_outcome(
    observation: EntityObservation,
    kind: EntityKind,
    generation_maximum: usize,
    limits: StoreLimits,
) -> Result<EntityScanModel, DurableOpenError> {
    match observation.listing.bounded(kind.entry_cap()) {
        Err(error) => Err(error),
        Ok(entries) => {
            let names = entity_names(entries, kind);
            let errors = entity_errors(observation, names, kind, generation_maximum, limits);
            match scan_errors::dominant(errors) {
                Some(error) => Err(error),
                None => if !names.published {
                    staged_outcome(observation, names, kind, generation_maximum, limits)
                } else if enters_generations(observation, names) {
                    published_outcome(observation, generation_maximum, limits)
                } else {
                    Err(DurableOpenError::DurableStateCorrupt)
                },
            }
        },
    }
}

fn scan_entity(
    observation: &EntityObservation,
    kind: EntityKind,
    generation_maximum: usize,
    limits: StoreLimits,
) -> (result: Result<ScannedEntity, DurableOpenError>)
    ensures
        scanned(result) == entity_outcome(*observation, kind, generation_maximum, limits),
{
    reveal(entity_outcome);
    let entries = match read_entries_bounded(&observation.listing, kind.entity_entry_cap()) {
        Ok(entries) => entries,
        Err(error) => return Err(error),
    };
    let names = classify_entity_names(entries, kind);
    let mut errors = PhysicalScanErrors::new();
    let mut enters = false;
    if names.generations {
        if let Some(metadata) = errors.record(
            metadata_without_following(observation.generations_entry),
        ) {
            enters = metadata.is_directory();
        }
    }
    let mut published_scan: Option<PhysicalGenerationScan> = None;
    let mut unpublished_scan: Option<UnpublishedEntityFiles> = None;
    if names.published {
        if enters {
            published_scan =
            errors.record(
                scan_physical_generation_chain(
                    &observation.generations,
                    generation_maximum,
                    limits,
                ),
            );
        }
    } else {
        unpublished_scan =
        errors.record(
            scan_unpublished_entity(
                observation,
                enters,
                names.conversation,
                kind,
                generation_maximum,
                limits,
            ),
        );
    }
    if names.published {
        errors.record(validate_zero_regular_file(&observation.published));
    }
    if names.generations {
        errors.record(
            validate_directory_entry(
                observation.generations_exit,
                DurableOpenError::DurableStateCorrupt,
            ),
        );
    }
    if names.conversation {
        errors.record(
            validate_regular_entry_path(
                observation.conversation_exit,
                DurableOpenError::DurableStateCorrupt,
            ),
        );
    }
    let is_session = matches!(kind, EntityKind::Session);
    errors.note_corrupt_if(
        names.unknown || (names.published && (!names.generations || (is_session
            && !names.conversation))),
    );
    proof {
        let model = entity_names(entries@, kind);
        assert(enters == enters_generations(*observation, model));
        assert(errors@ =~= entity_errors(*observation, model, kind, generation_maximum, limits));
    }
    match errors.finish() {
        Err(error) => return Err(error),
        Ok(()) => {},
    }
    assert(entity_errors(
        *observation,
        entity_names(entries@, kind),
        kind,
        generation_maximum,
        limits,
    ).len() == 0);
    if names.published {
        match published_scan {
            Some(scan) => Ok(ScannedEntity::Published(scan)),
            None => Err(DurableOpenError::DurableStateCorrupt),
        }
    } else {
        match unpublished_scan {
            Some(files) => Ok(ScannedEntity::Unpublished(files)),
            None => Err(DurableOpenError::DurableStateCorrupt),
        }
    }
}

pub fn scan_agent_entity(
    observation: &EntityObservation,
    generation_maximum: usize,
    limits: StoreLimits,
) -> (result: Result<ScannedEntity, DurableOpenError>)
    ensures
        scanned(result) == entity_outcome(
            *observation,
            EntityKind::Agent,
            generation_maximum,
            limits,
        ),
{
    scan_entity(observation, EntityKind::Agent, generation_maximum, limits)
}

pub fn scan_session_entity(
    observation: &EntityObservation,
    generation_maximum: usize,
    limits: StoreLimits,
) -> (result: Result<ScannedEntity, DurableOpenError>)
    ensures
        scanned(result) == entity_outcome(
            *observation,
            EntityKind::Session,
            generation_maximum,
            limits,
        ),
{
    scan_entity(observation, EntityKind::Session, generation_maximum, limits)
}

} // verus!
