//! What an interruption leaves, and what the next open makes of it.
//!
//! A publication and a removal can break off after any of their steps. Whatever is on disk then scans
//! as staging, which the next open removes, or as the published Agent.

use crate::agent_chain;
use crate::cleanup_plan;
use crate::cleanup_plan::{
    CleanupPayloadSubset, DeferredCleanup, DeferredGenerationCleanup,
    DeferredUnpublishedEntityCleanup,
};
use crate::cleanup_run;
use crate::cleanup_run::{CleanupStep, DirectorySync, StagedShape};
use crate::entity_scan;
use crate::entity_scan::{EntityKind, EntityObservation, EntityNames, EntityScanModel};
use crate::generation::StorageGeneration;
use crate::generation_scan;
use crate::generation_scan::{
    CommittedGenerationFiles, GenerationChain, GenerationEntryObservation,
    GenerationPayloadObservation, MarkerlessGenerationFiles, PhysicalGenerationPayload,
    UnpublishedGenerationScan,
};
use crate::idmap;
use crate::listing;
use crate::listing::{
    DirectoryListing, COMMITTED_FILE, DEFINITION_FILE, GENERATION_PAYLOAD_ENTRY_CAP, HEAD_FILE,
};
use crate::location::{EntityKey, StoreLocation};
use crate::open_error::DurableOpenError;
use crate::physical;
use crate::physical::{CleanupNodeIdentityShape, Lookup, StoreLimits};
use crate::publication;
use crate::publication::{PublicationSegment, PublicationStep};
use crate::recovery;
use crate::recovery::{AgentDocuments, AgentRecovery};
use crate::scan_errors;
use vstd::prelude::*;

verus! {

/// A walk over a directory that reached its end.
pub open spec fn is_complete<T>(listing: DirectoryListing<T>) -> bool {
    listing.opened is Ok && !listing.interrupted
}

pub open spec fn is_private_directory(lookup: Lookup) -> bool {
    lookup matches Ok(metadata) && metadata.is_private_directory()
}

/// A generation directory that holds exactly some of its files, all of them private, the documents
/// within their limit and the marker empty.
pub open spec fn payload_shows(
    payload: GenerationPayloadObservation,
    shape: StagedShape,
    limits: StoreLimits,
) -> bool {
    let names = payload.listing.entries@;
    &&& is_complete(payload.listing)
    &&& names.len() <= GENERATION_PAYLOAD_ENTRY_CAP
    &&& !generation_scan::unknown_payload_child(names)
    &&& listing::has_name(names, HEAD_FILE) == shape.head
    &&& listing::has_name(names, DEFINITION_FILE) == shape.definition
    &&& listing::has_name(names, COMMITTED_FILE) == shape.committed
    &&& shape.head ==> physical::document_shape(payload.head, limits) is Ok
    &&& shape.definition ==> physical::document_shape(payload.definition, limits) is Ok
    &&& shape.committed ==> payload.committed.outcome() is Ok
}

/// A `generations` directory that holds nothing, or the first generation alone.
pub open spec fn generations_show(
    listing: DirectoryListing<GenerationEntryObservation>,
    shape: StagedShape,
    limits: StoreLimits,
) -> bool {
    let entries = listing.entries@;
    &&& is_complete(listing)
    &&& if shape.generation {
        &&& entries.len() == 1
        &&& generation_scan::entry_generation(entries[0]) == Some(1nat)
        &&& is_private_directory(entries[0].metadata)
        &&& payload_shows(entries[0].payload, shape, limits)
    } else {
        entries.len() == 0
    }
}

/// An observation of an entity directory that holds exactly the parts of a shape and, if it is
/// published, the empty marker.
pub open spec fn entity_shows(
    observation: EntityObservation,
    shape: StagedShape,
    published: bool,
    kind: EntityKind,
    limits: StoreLimits,
) -> bool {
    let names = observation.listing.entries@;
    &&& is_complete(observation.listing)
    &&& names.len() <= kind.entry_cap()
    &&& entity_scan::entity_names(names, kind) == (EntityNames {
        published,
        generations: shape.generations,
        conversation: shape.conversation,
        unknown: false,
    })
    &&& is_private_directory(observation.entity)
    &&& published ==> observation.published.outcome() is Ok
    &&& shape.generations ==> {
        &&& is_private_directory(observation.generations_entry)
        &&& is_private_directory(observation.generations_node)
        &&& is_private_directory(observation.generations_exit)
        &&& generations_show(observation.generations, shape, limits)
    }
    &&& shape.conversation ==> {
        &&& physical::conversation_shape(observation.conversation_node, limits) is Ok
        &&& physical::regular_entry(
            observation.conversation_exit,
            DurableOpenError::DurableStateCorrupt,
        ) is Ok
    }
}

/// Whether the files that a scan found have a shape.
pub open spec fn has_shape(files: entity_scan::UnpublishedEntityFiles, shape: StagedShape) -> bool {
    &&& files.generations is Some == shape.generations
    &&& files.conversation_shape is Some == shape.conversation
    &&& match files.spec_generation() {
        None => !shape.generation,
        Some(generation) => {
            &&& shape.generation
            &&& generation.committed_shape is Some == shape.committed
            &&& generation.head_shape is Some == shape.head
            &&& generation.definition_shape is Some == shape.definition
        },
    }
}

proof fn lemma_nothing_recorded<T>(value: T)
    ensures
        scan_errors::settled(seq![], value) == Ok::<T, DurableOpenError>(value),
        scan_errors::dominant(seq![]) is None,
{
}

proof fn lemma_staged_payload(
    identity: CleanupNodeIdentityShape,
    payload: GenerationPayloadObservation,
    shape: StagedShape,
    limits: StoreLimits,
)
    requires
        payload_shows(payload, shape, limits),
        shape.committed ==> shape.head && shape.definition,
    ensures
        generation_scan::unpublished_payload_outcome(identity, payload, limits) matches Ok(files)
            && files.committed_shape is Some == shape.committed && files.head_shape is Some
            == shape.head && files.definition_shape is Some == shape.definition,
{
    let names = payload.listing.entries@;
    let errors = generation_scan::unpublished_payload_errors(names, payload, limits);
    assert(errors =~= seq![]);
    lemma_nothing_recorded(
        generation_scan::unpublished_payload_files(identity, names, payload, limits),
    );
}

proof fn lemma_staged_generations(
    listing: DirectoryListing<GenerationEntryObservation>,
    shape: StagedShape,
    maximum: usize,
    limits: StoreLimits,
)
    requires
        generations_show(listing, shape, limits),
        maximum >= 1,
        shape.committed ==> shape.head && shape.definition,
    ensures
        match generation_scan::unpublished_generation_outcome(listing, maximum, limits) {
            Err(_) => false,
            Ok(None) => !shape.generation,
            Ok(Some(files)) => shape.generation && files.committed_shape is Some == shape.committed
                && files.head_shape is Some == shape.head && files.definition_shape is Some
                == shape.definition,
        },
{
    let entries = listing.entries@;
    if shape.generation {
        let metadata = entries[0].metadata->Ok_0;
        lemma_staged_payload(metadata.identity, entries[0].payload, shape, limits);
        assert(entries.drop_last() =~= seq![]);
        assert(generation_scan::unpublished_walk(entries.drop_last(), limits)
            == UnpublishedGenerationScan { first: None, errors: seq![] });
        let walk = generation_scan::unpublished_walk(entries, limits);
        assert(walk.errors =~= seq![]);
        assert(walk.first is Some);
        assert(walk.errors + scan_errors::corrupt_if(entries.len() != 1 || walk.first is None)
            =~= seq![]);
        lemma_nothing_recorded(walk.first);
    }
}

/// Staging of an acceptable shape scans as exactly this staging.
pub proof fn lemma_staging_scans(
    observation: EntityObservation,
    shape: StagedShape,
    kind: EntityKind,
    maximum: usize,
    limits: StoreLimits,
)
    requires
        entity_shows(observation, shape, false, kind, limits),
        shape.is_scannable(kind),
        maximum >= 1,
    ensures
        entity_scan::entity_outcome(observation, kind, maximum, limits) matches Ok(
            EntityScanModel::Unpublished(files),
        ) && has_shape(files, shape),
{
    reveal(entity_scan::entity_outcome);
    let names = entity_scan::entity_names(observation.listing.entries@, kind);
    let facts = entity_scan::staging_facts(observation, maximum, limits);
    let enters = entity_scan::enters_generations(observation, names);
    assert(enters == shape.generations);
    if shape.generations {
        lemma_staged_generations(observation.generations, shape, maximum, limits);
    }
    let staging = entity_scan::staging_errors(facts, enters, names.conversation, kind);
    assert(staging =~= seq![]);
    let outcome = entity_scan::unpublished_entity_outcome(
        observation,
        enters,
        names.conversation,
        kind,
        maximum,
        limits,
    );
    assert(outcome is Ok);
    let errors = entity_scan::entity_errors(observation, names, kind, maximum, limits);
    assert(errors =~= seq![]);
}

proof fn lemma_single_generation_order(entries: Seq<GenerationEntryObservation>)
    requires
        entries.len() == 1,
        generation_scan::entry_generation(entries[0]) == Some(1nat),
    ensures
        generation_scan::generation_order(entries) == seq![0int],
{
    let key = generation_scan::generation_key(1, 0);
    let keys = generation_scan::generation_keys(entries);
    let ids = seq![key];
    generation_scan::lemma_key_decodes(1, 0);
    assert forall|k: u128| keys.contains(k) == ids.to_set().contains(k) by {
        if keys.contains(k) {
            assert(ids[0] == k);
        }
        if ids.to_set().contains(k) {
            assert(entries[0] == entries[0]);
            assert(generation_scan::entry_generation(entries[0]) is Some);
        }
    }
    assert(ids.to_set() =~= keys);
    assert(idmap::ascending(ids));
    let chosen = idmap::ascending_ids(keys);
    assert(idmap::ascending(chosen) && chosen.to_set() == keys);
    idmap::lemma_ascending_unique(ids, chosen);
    assert(generation_scan::generation_order(entries) =~= seq![0int]);
}

/// The one committed generation of a newly published entity.
pub open spec fn first_committed() -> CommittedGenerationFiles {
    CommittedGenerationFiles { generation: StorageGeneration::of(1), has_definition: true }
}

proof fn lemma_published_chain(
    listing: DirectoryListing<GenerationEntryObservation>,
    shape: StagedShape,
    maximum: usize,
    limits: StoreLimits,
)
    requires
        generations_show(listing, shape, limits),
        maximum >= 1,
        shape.generation && shape.committed && shape.head && shape.definition,
    ensures
        generation_scan::chain_outcome(listing, maximum, limits) == Ok::<
            GenerationChain,
            DurableOpenError,
        >(
            GenerationChain {
                committed: seq![first_committed()],
                markerless: None,
                misplaced: 0,
            },
        ),
{
    let entries = listing.entries@;
    let entry = entries[0];
    let names = entry.payload.listing.entries@;
    let order = generation_scan::generation_order(entries);
    let payload = PhysicalGenerationPayload::Committed(first_committed());
    lemma_single_generation_order(entries);
    assert(generation_scan::payload_errors(names, entry.payload, limits) =~= seq![]);
    assert(generation_scan::payload_outcome(StorageGeneration::of(1), entry.payload, limits) == Ok::<
        PhysicalGenerationPayload,
        DurableOpenError,
    >(payload));
    assert(entries.drop_last() =~= seq![]);
    assert(generation_scan::generation_name_errors(entries.drop_last()) =~= seq![]);
    assert(generation_scan::generation_name_errors(entries) =~= seq![]);
    assert(order.drop_last() =~= seq![]);
    assert(generation_scan::walk_errors(entries, order.drop_last(), limits) =~= seq![]);
    assert(generation_scan::visit_errors(entry, limits) =~= seq![]);
    assert(generation_scan::walk_errors(entries, order, limits) =~= seq![]);
    assert(generation_scan::walk_payloads(entries, order.drop_last(), limits) =~= seq![]);
    let payloads = generation_scan::walk_payloads(entries, order, limits);
    assert(payloads =~= seq![payload]);
    assert(payloads.drop_last() =~= seq![]);
    StorageGeneration::lemma_of_ordinal(1);
    let chain = generation_scan::chained(payloads);
    assert(generation_scan::chained(payloads.drop_last()) == (GenerationChain {
        committed: seq![],
        markerless: None,
        misplaced: 0,
    }));
    assert(chain.committed =~= seq![first_committed()]);
    assert(generation_scan::corruptions(0) =~= seq![]);
    assert(generation_scan::chain_errors(entries, limits) =~= seq![]);
    lemma_nothing_recorded(chain);
}

/// A published Agent with its first generation scans as exactly this.
pub proof fn lemma_published_agent_scans(
    observation: EntityObservation,
    shape: StagedShape,
    maximum: usize,
    limits: StoreLimits,
)
    requires
        entity_shows(observation, shape, true, EntityKind::Agent, limits),
        shape.is_scannable(EntityKind::Agent),
        shape.committed,
        maximum >= 1,
    ensures
        entity_scan::entity_outcome(observation, EntityKind::Agent, maximum, limits) == Ok::<
            EntityScanModel,
            DurableOpenError,
        >(EntityScanModel::Published { committed: seq![first_committed()], markerless: None }),
{
    reveal(entity_scan::entity_outcome);
    let kind = EntityKind::Agent;
    let names = entity_scan::entity_names(observation.listing.entries@, kind);
    lemma_published_chain(observation.generations, shape, maximum, limits);
    let errors = entity_scan::entity_errors(observation, names, kind, maximum, limits);
    assert(errors =~= seq![]);
}

/// However far the removal of an invisible entity came, what is left of it scans as staging again,
/// with exactly the parts that are left, so that the next open can remove the rest.
pub proof fn law_interrupted_removal_is_taken_up(
    plan: DeferredUnpublishedEntityCleanup,
    sync: DirectorySync,
    n: int,
    observation: EntityObservation,
    maximum: usize,
    limits: StoreLimits,
)
    requires
        0 <= n <= cleanup_run::entity_steps(plan, sync).len(),
        cleanup_run::planned_shape(plan).is_scannable(plan.key.kind),
        maximum >= 1,
        ({
            let left = cleanup_run::shape_after(
                cleanup_run::planned_shape(plan),
                cleanup_run::entity_steps(plan, sync).take(n),
            );
            left.entity && entity_shows(observation, left, false, plan.key.kind, limits)
        }),
    ensures
        entity_scan::entity_outcome(observation, plan.key.kind, maximum, limits) matches Ok(
            EntityScanModel::Unpublished(files),
        ) && has_shape(
            files,
            cleanup_run::shape_after(
                cleanup_run::planned_shape(plan),
                cleanup_run::entity_steps(plan, sync).take(n),
            ),
        ),
{
    cleanup_run::law_interrupted_removal_stays_recoverable(plan, sync, n);
    let left = cleanup_run::shape_after(
        cleanup_run::planned_shape(plan),
        cleanup_run::entity_steps(plan, sync).take(n),
    );
    lemma_staging_scans(observation, left, plan.key.kind, maximum, limits);
}

/// What is left of a trailing generation after some steps of its removal.
pub open spec fn trailing_after(
    contents: CleanupPayloadSubset,
    steps: Seq<CleanupStep>,
) -> CleanupPayloadSubset
    decreases steps.len(),
{
    if steps.len() == 0 {
        contents
    } else {
        let before = trailing_after(contents, steps.drop_last());
        match steps.last() {
            CleanupStep::RemoveFile(StoreLocation::Definition(_, _)) => CleanupPayloadSubset {
                has_definition: false,
                ..before
            },
            CleanupStep::RemoveFile(StoreLocation::Head(_, _)) => CleanupPayloadSubset {
                has_head: false,
                ..before
            },
            _ => before,
        }
    }
}

/// A generation directory that holds exactly these documents.
pub open spec fn trailing_shape(contents: CleanupPayloadSubset) -> StagedShape {
    StagedShape {
        committed: false,
        definition: contents.has_definition,
        head: contents.has_head,
        conversation: false,
        generation: true,
        generations: true,
        entity: true,
    }
}

/// However far the removal of a trailing generation came, what is left of its directory scans as a
/// markerless generation again, with exactly the documents that are left.
pub proof fn law_interrupted_trailing_removal_is_taken_up(
    plan: DeferredGenerationCleanup,
    contents: CleanupPayloadSubset,
    sync: DirectorySync,
    n: int,
    payload: GenerationPayloadObservation,
    limits: StoreLimits,
)
    requires
        0 <= n <= cleanup_run::generation_steps(plan, contents, sync).len(),
        payload_shows(
            payload,
            trailing_shape(
                trailing_after(
                    contents,
                    cleanup_run::generation_steps(plan, contents, sync).take(n),
                ),
            ),
            limits,
        ),
    ensures
        ({
            let left = trailing_after(
                contents,
                cleanup_run::generation_steps(plan, contents, sync).take(n),
            );
            generation_scan::payload_outcome(plan.generation, payload, limits) == Ok::<
                PhysicalGenerationPayload,
                DurableOpenError,
            >(
                PhysicalGenerationPayload::Markerless(
                    MarkerlessGenerationFiles {
                        generation: plan.generation,
                        has_head: left.has_head,
                        has_definition: left.has_definition,
                    },
                ),
            )
        }),
{
    let names = payload.listing.entries@;
    assert(generation_scan::payload_errors(names, payload, limits) =~= seq![]);
    lemma_nothing_recorded(generation_scan::payload_files(plan.generation, names));
}

/// What a publication has put on disk.
pub struct BuiltAgent {
    pub shape: StagedShape,
    pub published: bool,
}

impl BuiltAgent {
    pub open spec fn nothing() -> Self {
        BuiltAgent {
            shape: StagedShape {
                committed: false,
                definition: false,
                head: false,
                conversation: false,
                generation: false,
                generations: false,
                entity: false,
            },
            published: false,
        }
    }

    /// What a step adds. A file is there from the moment of its creation, whatever it holds.
    pub open spec fn with(self, step: PublicationStep) -> Self {
        match step {
            PublicationStep::CreateDirectory(location) => match location {
                StoreLocation::Entity(_) => BuiltAgent {
                    shape: StagedShape { entity: true, ..self.shape },
                    ..self
                },
                StoreLocation::Generations(_) => BuiltAgent {
                    shape: StagedShape { generations: true, ..self.shape },
                    ..self
                },
                StoreLocation::Generation(_, _) => BuiltAgent {
                    shape: StagedShape { generation: true, ..self.shape },
                    ..self
                },
                _ => self,
            },
            PublicationStep::CreateFile(location) => match location {
                StoreLocation::Head(_, _) => BuiltAgent {
                    shape: StagedShape { head: true, ..self.shape },
                    ..self
                },
                StoreLocation::Definition(_, _) => BuiltAgent {
                    shape: StagedShape { definition: true, ..self.shape },
                    ..self
                },
                StoreLocation::Committed(_, _) => BuiltAgent {
                    shape: StagedShape { committed: true, ..self.shape },
                    ..self
                },
                StoreLocation::Published(_) => BuiltAgent { published: true, ..self },
                _ => self,
            },
            _ => self,
        }
    }

    /// Whether the next open accepts what is there.
    pub open spec fn is_recoverable(self) -> bool {
        &&& self.shape.is_scannable(EntityKind::Agent)
        &&& self.published ==> self.shape.committed
    }
}

pub open spec fn built_after(steps: Seq<PublicationStep>) -> BuiltAgent
    decreases steps.len(),
{
    if steps.len() == 0 {
        BuiltAgent::nothing()
    } else {
        built_after(steps.drop_last()).with(steps.last())
    }
}

/// All steps of an undisturbed publication.
pub open spec fn publication_steps(agent_id: u128, sync: DirectorySync) -> Seq<PublicationStep> {
    publication::segment_steps(PublicationSegment::Precommit, agent_id, sync)
        + publication::segment_steps(PublicationSegment::Commit, agent_id, sync)
        + publication::segment_steps(
        PublicationSegment::Publish { close_required: false },
        agent_id,
        sync,
    )
}

/// A step that creates nothing.
pub open spec fn is_inert(step: PublicationStep) -> bool {
    !(step is CreateDirectory || step is CreateFile)
}

/// A stretch of steps of which only the first can create something.
spec fn is_stretch(steps: Seq<PublicationStep>) -> bool {
    &&& steps.len() > 0
    &&& forall|i: int| 1 <= i < steps.len() ==> is_inert(#[trigger] steps[i])
}

spec fn is_recoverable_throughout(steps: Seq<PublicationStep>) -> bool {
    forall|n: int|
        0 <= n <= steps.len() ==> (#[trigger] built_after(steps.take(n))).is_recoverable()
}

proof fn lemma_built_within_stretch(
    before: Seq<PublicationStep>,
    stretch: Seq<PublicationStep>,
    k: int,
)
    requires
        is_stretch(stretch),
        1 <= k <= stretch.len(),
    ensures
        built_after(before + stretch.take(k)) == built_after(before).with(stretch[0]),
    decreases k,
{
    let steps = before + stretch.take(k);
    assert(steps.drop_last() =~= before + stretch.take(k - 1));
    assert(steps.last() == stretch[k - 1]);
    if k == 1 {
        assert(before + stretch.take(0) =~= before);
    } else {
        lemma_built_within_stretch(before, stretch, k - 1);
        assert(is_inert(stretch[k - 1]));
    }
}

proof fn lemma_one_more_stretch(before: Seq<PublicationStep>, stretch: Seq<PublicationStep>)
    requires
        is_recoverable_throughout(before),
        is_stretch(stretch),
        built_after(before).with(stretch[0]).is_recoverable(),
    ensures
        is_recoverable_throughout(before + stretch),
        built_after(before + stretch) == built_after(before).with(stretch[0]),
{
    let steps = before + stretch;
    assert forall|n: int| 0 <= n <= steps.len() implies (#[trigger] built_after(
        steps.take(n),
    )).is_recoverable() by {
        if n <= before.len() {
            assert(steps.take(n) =~= before.take(n));
        } else {
            let k = n - before.len();
            assert(steps.take(n) =~= before + stretch.take(k));
            lemma_built_within_stretch(before, stretch, k);
        }
    }
    assert(stretch.take(stretch.len() as int) =~= stretch);
    lemma_built_within_stretch(before, stretch, stretch.len() as int);
}

proof fn lemma_staging_path(agent_id: u128, sync: DirectorySync)
    ensures
        ({
            let key = publication::agent_key(agent_id);
            let steps = publication::scaffold_steps(key, sync) + publication::payload_steps(
                key,
                sync,
            );
            &&& is_recoverable_throughout(steps)
            &&& built_after(steps) == (BuiltAgent {
                shape: StagedShape {
                    committed: false,
                    definition: true,
                    head: true,
                    conversation: false,
                    generation: true,
                    generations: true,
                    entity: true,
                },
                published: false,
            })
        }),
{
    let key = publication::agent_key(agent_id);
    let first = StorageGeneration::of(1);
    let none = Seq::<PublicationStep>::empty();
    let entity = publication::directory_steps(StoreLocation::Entity(key), sync);
    let generations = publication::directory_steps(StoreLocation::Generations(key), sync);
    let generation = publication::directory_steps(StoreLocation::Generation(key, first), sync);
    let head = publication::document_steps(StoreLocation::Head(key, first));
    let definition = publication::document_steps(StoreLocation::Definition(key, first))
        + publication::sync_step(sync, StoreLocation::Generation(key, first)) + seq![
        PublicationStep::ReadBack(StoreLocation::Head(key, first)),
        PublicationStep::ReadBack(StoreLocation::Definition(key, first)),
    ];
    assert forall|n: int| 0 <= n <= none.len() implies (#[trigger] built_after(
        none.take(n),
    )).is_recoverable() by {
        assert(none.take(n) =~= none);
    }
    lemma_one_more_stretch(none, entity);
    lemma_one_more_stretch(none + entity, generations);
    lemma_one_more_stretch(none + entity + generations, generation);
    lemma_one_more_stretch(none + entity + generations + generation, head);
    lemma_one_more_stretch(none + entity + generations + generation + head, definition);
    let steps = publication::scaffold_steps(key, sync) + publication::payload_steps(key, sync);
    assert(none + entity + generations + generation + head + definition =~= steps);
}

proof fn lemma_publication_path(agent_id: u128, sync: DirectorySync)
    ensures
        is_recoverable_throughout(publication_steps(agent_id, sync)),
        built_after(publication_steps(agent_id, sync)).published,
{
    reveal(publication::segment_steps);
    let key = publication::agent_key(agent_id);
    let staging = publication::segment_steps(PublicationSegment::Precommit, agent_id, sync);
    let commit = publication::segment_steps(PublicationSegment::Commit, agent_id, sync);
    let publish = publication::segment_steps(
        PublicationSegment::Publish { close_required: false },
        agent_id,
        sync,
    );
    lemma_staging_path(agent_id, sync);
    lemma_one_more_stretch(staging, commit);
    lemma_one_more_stretch(staging + commit, publish);
}

/// However far a publication came, what is on disk scans as staging with exactly its parts, until
/// `PUBLISHED` is there; from then on it scans as a published Agent with its first generation.
pub proof fn law_interrupted_publication_is_staging_or_published(
    agent_id: u128,
    sync: DirectorySync,
    n: int,
    observation: EntityObservation,
    maximum: usize,
    limits: StoreLimits,
)
    requires
        0 <= n <= publication_steps(agent_id, sync).len(),
        maximum >= 1,
        ({
            let built = built_after(publication_steps(agent_id, sync).take(n));
            built.shape.entity && entity_shows(
                observation,
                built.shape,
                built.published,
                EntityKind::Agent,
                limits,
            )
        }),
    ensures
        ({
            let built = built_after(publication_steps(agent_id, sync).take(n));
            let outcome = entity_scan::entity_outcome(
                observation,
                EntityKind::Agent,
                maximum,
                limits,
            );
            if built.published {
                outcome == Ok::<EntityScanModel, DurableOpenError>(
                    EntityScanModel::Published {
                        committed: seq![first_committed()],
                        markerless: None,
                    },
                )
            } else {
                outcome matches Ok(EntityScanModel::Unpublished(files)) && has_shape(
                    files,
                    built.shape,
                )
            }
        }),
{
    let built = built_after(publication_steps(agent_id, sync).take(n));
    lemma_publication_path(agent_id, sync);
    assert(built.is_recoverable());
    if built.published {
        lemma_published_agent_scans(observation, built.shape, maximum, limits);
    } else {
        lemma_staging_scans(observation, built.shape, EntityKind::Agent, maximum, limits);
    }
}

/// Whether the two documents on disk are those of a valid first generation.
pub open spec fn documents_are_valid(agent_id: u128, documents: Seq<AgentDocuments>) -> bool {
    &&& documents.len() > 0
    &&& documents[0].head is Ok
    &&& documents[0].definition is Ok
    &&& agent_chain::first_agent_generation_is_valid(
        agent_id,
        1,
        documents[0].head->Ok_0@,
        documents[0].definition->Ok_0@,
    )
}

/// What recovery makes of an interrupted publication: an Agent that is published is in the catalog
/// with exactly its documents; any other one is not, and exactly what it left is planned for removal.
pub proof fn law_interrupted_publication_recovers(
    agent_id: u128,
    sync: DirectorySync,
    n: int,
    observation: EntityObservation,
    documents: Seq<AgentDocuments>,
    recovered: AgentRecovery,
    reservations: Map<u128, CleanupNodeIdentityShape>,
    maximum: usize,
    limits: StoreLimits,
)
    requires
        0 <= n <= publication_steps(agent_id, sync).len(),
        maximum >= 1,
        reservations.contains_key(agent_id),
        !recovered.agents.contains_key(agent_id),
        recovered.cleanup is None,
        ({
            let built = built_after(publication_steps(agent_id, sync).take(n));
            &&& built.shape.entity
            &&& entity_shows(
                observation,
                built.shape,
                built.published,
                EntityKind::Agent,
                limits,
            )
            &&& built.shape.committed ==> documents_are_valid(agent_id, documents)
        }),
    ensures
        ({
            let built = built_after(publication_steps(agent_id, sync).take(n));
            let scanned = entity_scan::entity_outcome(
                observation,
                EntityKind::Agent,
                maximum,
                limits,
            );
            let after = recovered.with(
                agent_id,
                scanned->Ok_0,
                documents,
                reservations,
                maximum,
            );
            &&& scanned is Ok
            &&& after is Ok
            &&& if built.published {
                &&& after->Ok_0.cleanup is None
                &&& after->Ok_0.agents.contains_key(agent_id)
                &&& after->Ok_0.agents[agent_id].head == documents[0].head->Ok_0@
                &&& after->Ok_0.agents[agent_id].definition == documents[0].definition->Ok_0@
                &&& after->Ok_0.agents.remove(agent_id) == recovered.agents
            } else {
                &&& after->Ok_0.agents == recovered.agents
                &&& after->Ok_0.cleanup matches Some(DeferredCleanup::UnpublishedEntity(plan))
                &&& plan.key == publication::agent_key(agent_id)
                &&& plan.reservation_shape == reservations[agent_id]
                &&& cleanup_run::planned_shape(plan) == built.shape
            }
        }),
{
    let built = built_after(publication_steps(agent_id, sync).take(n));
    law_interrupted_publication_is_staging_or_published(
        agent_id,
        sync,
        n,
        observation,
        maximum,
        limits,
    );
    lemma_publication_path(agent_id, sync);
    assert(built.is_recoverable());
    let scanned = entity_scan::entity_outcome(observation, EntityKind::Agent, maximum, limits);
    if built.published {
        let committed = seq![first_committed()];
        let views = recovery::agent_generation_views(committed, documents);
        StorageGeneration::lemma_of_ordinal(1);
        assert(views.len() == 1);
        assert(views[0] == recovery::agent_generation_view(
            first_committed(),
            recovery::nth(documents, 0),
        ));
        let entry = agent_chain::agent_folded(agent_id, views)->Ok_0;
        assert(recovered.agents.insert(agent_id, entry).remove(agent_id) =~= recovered.agents);
    } else {
        match scanned {
            Ok(EntityScanModel::Unpublished(files)) => {
                let plan = cleanup_plan::entity_cleanup(
                    EntityKey { kind: EntityKind::Agent, id: agent_id },
                    files,
                    maximum,
                    reservations[agent_id],
                );
                assert(cleanup_run::planned_shape(plan) == built.shape);
            },
            _ => {},
        }
    }
}

} // verus!
