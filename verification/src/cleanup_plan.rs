//! The deferred cleanup of one open, and its revalidation.
//!
//! A plan holds what a scan saw. Before anything is removed, everything is looked up again, and any
//! drift is corruption: a plan never accepts a changed marker, child, kind, mode, length or node.

use crate::entity_scan::{UnpublishedEntityFiles, UnpublishedGenerations};
use crate::generation;
use crate::generation::StorageGeneration;
use crate::generation_scan::{MarkerlessGenerationFiles, UnpublishedGenerationFiles};
use crate::listing;
use crate::listing::{
    entry_has_name, read_cleanup_entries_bounded, sort_entries_by_name, CleanupEntry,
    DirectoryListing, COMMITTED_FILE, CONVERSATION_FILE, DEFINITION_FILE, GENERATIONS_DIRECTORY,
    GENERATION_PAYLOAD_ENTRY_CAP, HEAD_FILE, PUBLISHED_FILE,
};
use crate::location::EntityKey;
use crate::open_error::DurableOpenError;
use crate::physical;
use crate::physical::{
    cleanup_metadata_without_following, validate_cleanup_absent,
    validate_cleanup_generation_document, validate_cleanup_zero_regular_file,
    validate_directory_entry, validate_existing_directory,
    validate_unpublished_conversation_physical_shape, CleanupNodeIdentityShape,
    CleanupRegularFileShape, Lookup, StoreLimits,
};
use vstd::prelude::*;

verus! {

/// The removal of one trailing markerless generation of a published entity.
#[derive(Clone, Copy, PartialEq, Eq, Structural)]
pub struct DeferredGenerationCleanup {
    pub key: EntityKey,
    pub generation: StorageGeneration,
    pub has_head: bool,
    pub has_definition: bool,
}

/// The removal of a whole invisible Agent or Session.
#[derive(Clone, Copy, PartialEq, Eq, Structural)]
pub struct DeferredUnpublishedEntityCleanup {
    pub key: EntityKey,
    pub entity_entry_cap: usize,
    pub generation_collection_cap: usize,
    pub reservation_shape: CleanupNodeIdentityShape,
    pub entity_shape: CleanupNodeIdentityShape,
    pub generations: Option<UnpublishedGenerations>,
    pub conversation_shape: Option<CleanupRegularFileShape>,
}

/// The narrow set of recovery removals. One open carries out at most one of them.
#[derive(Clone, Copy, PartialEq, Eq, Structural)]
pub enum DeferredCleanup {
    TrailingGeneration(DeferredGenerationCleanup),
    UnpublishedEntity(DeferredUnpublishedEntityCleanup),
}

/// What may be shown of a trailing generation cleanup.
#[derive(Clone, Copy, Debug)]
pub struct RedactedGenerationCleanup {
    pub has_head: bool,
    pub has_definition: bool,
}

/// What may be shown of an entity cleanup.
#[derive(Clone, Copy, Debug)]
pub struct RedactedEntityCleanup {
    pub entity_entry_cap: usize,
    pub generation_collection_cap: usize,
    pub has_generations: bool,
    pub has_generation: bool,
    pub has_conversation: bool,
    pub has_committed: bool,
    pub has_head: bool,
    pub has_definition: bool,
}

/// What may be shown of a cleanup.
#[derive(Clone, Copy, Debug)]
pub enum RedactedCleanup {
    TrailingGeneration(RedactedGenerationCleanup),
    UnpublishedEntity(RedactedEntityCleanup),
}

impl DeferredGenerationCleanup {
    /// Whether a printed form shows exactly the facts of this cleanup.
    pub open spec fn is_shown_as(self, shown: RedactedGenerationCleanup) -> bool {
        &&& shown.has_head == self.has_head
        &&& shown.has_definition == self.has_definition
    }

    /// The form that may be printed: no identity and no path.
    pub fn redacted(&self) -> (shown: RedactedGenerationCleanup)
        ensures
            self.is_shown_as(shown),
    {
        RedactedGenerationCleanup { has_head: self.has_head, has_definition: self.has_definition }
    }
}

impl DeferredUnpublishedEntityCleanup {
    pub open spec fn spec_generation(self) -> Option<UnpublishedGenerationFiles> {
        match self.generations {
            Some(generations) => generations.generation,
            None => None,
        }
    }

    pub open spec fn has_committed(self) -> bool {
        self.spec_generation() matches Some(files) && files.committed_shape is Some
    }

    pub open spec fn has_head(self) -> bool {
        self.spec_generation() matches Some(files) && files.head_shape is Some
    }

    pub open spec fn has_definition(self) -> bool {
        self.spec_generation() matches Some(files) && files.definition_shape is Some
    }

    pub fn generation(&self) -> (files: Option<UnpublishedGenerationFiles>)
        ensures
            files == self.spec_generation(),
    {
        match self.generations {
            Some(generations) => generations.generation,
            None => None,
        }
    }

    /// Whether a printed form shows exactly the facts of this cleanup.
    pub open spec fn is_shown_as(self, shown: RedactedEntityCleanup) -> bool {
        &&& shown.entity_entry_cap == self.entity_entry_cap
        &&& shown.generation_collection_cap == self.generation_collection_cap
        &&& shown.has_generations == (self.generations is Some)
        &&& shown.has_generation == (self.spec_generation() is Some)
        &&& shown.has_conversation == (self.conversation_shape is Some)
        &&& shown.has_committed == self.has_committed()
        &&& shown.has_head == self.has_head()
        &&& shown.has_definition == self.has_definition()
    }

    /// The form that may be printed: no identity and no path.
    pub fn redacted(&self) -> (shown: RedactedEntityCleanup)
        ensures
            self.is_shown_as(shown),
    {
        let (has_generation, has_committed, has_head, has_definition) = match self.generation() {
            Some(files) => (
                true,
                files.committed_shape.is_some(),
                files.head_shape.is_some(),
                files.definition_shape.is_some(),
            ),
            None => (false, false, false, false),
        };
        RedactedEntityCleanup {
            entity_entry_cap: self.entity_entry_cap,
            generation_collection_cap: self.generation_collection_cap,
            has_generations: self.generations.is_some(),
            has_generation,
            has_conversation: self.conversation_shape.is_some(),
            has_committed,
            has_head,
            has_definition,
        }
    }
}

impl DeferredCleanup {
    /// The form that may be printed: the kind of the cleanup and all of its facts.
    pub fn redacted(&self) -> (shown: RedactedCleanup)
        ensures
            match (*self, shown) {
                (
                    DeferredCleanup::TrailingGeneration(plan),
                    RedactedCleanup::TrailingGeneration(facts),
                ) => plan.is_shown_as(facts),
                (
                    DeferredCleanup::UnpublishedEntity(plan),
                    RedactedCleanup::UnpublishedEntity(facts),
                ) => plan.is_shown_as(facts),
                _ => false,
            },
    {
        match self {
            DeferredCleanup::TrailingGeneration(cleanup) => RedactedCleanup::TrailingGeneration(
                cleanup.redacted(),
            ),
            DeferredCleanup::UnpublishedEntity(cleanup) => RedactedCleanup::UnpublishedEntity(
                cleanup.redacted(),
            ),
        }
    }
}

pub open spec fn trailing_cleanup(
    key: EntityKey,
    markerless: MarkerlessGenerationFiles,
) -> DeferredGenerationCleanup {
    DeferredGenerationCleanup {
        key,
        generation: markerless.generation,
        has_head: markerless.has_head,
        has_definition: markerless.has_definition,
    }
}

/// Plans the removal of a trailing markerless generation.
pub fn deferred_generation_cleanup(key: EntityKey, markerless: MarkerlessGenerationFiles) -> (plan:
    DeferredGenerationCleanup)
    ensures
        plan == trailing_cleanup(key, markerless),
{
    DeferredGenerationCleanup {
        key,
        generation: markerless.generation,
        has_head: markerless.has_head,
        has_definition: markerless.has_definition,
    }
}

pub open spec fn entity_cleanup(
    key: EntityKey,
    files: UnpublishedEntityFiles,
    generation_collection_cap: usize,
    reservation_shape: CleanupNodeIdentityShape,
) -> DeferredUnpublishedEntityCleanup {
    DeferredUnpublishedEntityCleanup {
        key,
        entity_entry_cap: key.kind.entry_cap(),
        generation_collection_cap,
        reservation_shape,
        entity_shape: files.entity_shape,
        generations: files.generations,
        conversation_shape: files.conversation_shape,
    }
}

/// Plans the removal of a whole invisible entity.
pub fn deferred_unpublished_entity_cleanup(
    key: EntityKey,
    files: UnpublishedEntityFiles,
    generation_collection_cap: usize,
    reservation_shape: CleanupNodeIdentityShape,
) -> (plan: DeferredUnpublishedEntityCleanup)
    ensures
        plan == entity_cleanup(key, files, generation_collection_cap, reservation_shape),
{
    let UnpublishedEntityFiles { entity_shape, generations, conversation_shape } = files;
    DeferredUnpublishedEntityCleanup {
        key,
        entity_entry_cap: key.kind.entity_entry_cap(),
        generation_collection_cap,
        reservation_shape,
        entity_shape,
        generations,
        conversation_shape,
    }
}

/// Fills the one slot that an open has for a cleanup.
pub fn register_deferred_cleanup(
    cleanup: &mut Option<DeferredCleanup>,
    candidate: DeferredCleanup,
) -> (result: Result<(), DurableOpenError>)
    ensures
        result == physical::checked(*old(cleanup) is None, DurableOpenError::DurableStateCorrupt),
        *final(cleanup) == match *old(cleanup) {
            Some(registered) => Some(registered),
            None => Some(candidate),
        },
{
    if cleanup.is_some() {
        return Err(DurableOpenError::DurableStateCorrupt);
    }
    *cleanup = Some(candidate);
    Ok(())
}

/// A fresh look at everything that a trailing generation cleanup depends on.
pub struct GenerationCleanupObservation {
    pub reservation: Lookup,
    pub published: Lookup,
    pub generations: Lookup,
    pub generation: Lookup,
    pub payload: DirectoryListing<CleanupEntry>,
}

/// Which payload documents a generation directory holds.
#[derive(Clone, Copy, PartialEq, Eq, Structural)]
pub struct CleanupPayloadSubset {
    pub has_head: bool,
    pub has_definition: bool,
}

/// Takes in one entry of a markerless generation. The marker's name alone makes it a committed one.
pub open spec fn subset_with(
    seen: CleanupPayloadSubset,
    entry: CleanupEntry,
    limits: StoreLimits,
) -> Result<CleanupPayloadSubset, DurableOpenError> {
    if entry.name@ == listing::name_bytes(COMMITTED_FILE) {
        Err(DurableOpenError::DurableStateCorrupt)
    } else if entry.name@ == listing::name_bytes(HEAD_FILE) {
        if seen.has_head {
            Err(DurableOpenError::DurableStateCorrupt)
        } else {
            match physical::cleanup_document_shape(entry.metadata, limits) {
                Err(error) => Err(error),
                Ok(_) => Ok(CleanupPayloadSubset { has_head: true, ..seen }),
            }
        }
    } else if entry.name@ == listing::name_bytes(DEFINITION_FILE) {
        if seen.has_definition {
            Err(DurableOpenError::DurableStateCorrupt)
        } else {
            match physical::cleanup_document_shape(entry.metadata, limits) {
                Err(error) => Err(error),
                Ok(_) => Ok(CleanupPayloadSubset { has_definition: true, ..seen }),
            }
        }
    } else {
        Err(DurableOpenError::DurableStateCorrupt)
    }
}

pub open spec fn payload_subset(entries: Seq<CleanupEntry>, limits: StoreLimits) -> Result<
    CleanupPayloadSubset,
    DurableOpenError,
>
    decreases entries.len(),
{
    if entries.len() == 0 {
        Ok(CleanupPayloadSubset { has_head: false, has_definition: false })
    } else {
        match payload_subset(entries.drop_last(), limits) {
            Err(error) => Err(error),
            Ok(seen) => subset_with(seen, entries.last(), limits),
        }
    }
}

proof fn lemma_subset_failure_persists(entries: Seq<CleanupEntry>, limits: StoreLimits, n: int)
    requires
        0 <= n <= entries.len(),
        payload_subset(entries.take(n), limits) is Err,
    ensures
        payload_subset(entries, limits) == payload_subset(entries.take(n), limits),
    decreases entries.len(),
{
    if n == entries.len() {
        assert(entries.take(n) =~= entries);
    } else {
        assert(entries.drop_last().take(n) =~= entries.take(n));
        lemma_subset_failure_persists(entries.drop_last(), limits, n);
    }
}

fn take_subset_entry(
    seen: CleanupPayloadSubset,
    entry: &CleanupEntry,
    limits: StoreLimits,
) -> (result: Result<CleanupPayloadSubset, DurableOpenError>)
    ensures
        result == subset_with(seen, *entry, limits),
{
    let name = entry.name.as_slice();
    if entry_has_name(name, COMMITTED_FILE) {
        return Err(DurableOpenError::DurableStateCorrupt);
    }
    let is_head = entry_has_name(name, HEAD_FILE);
    if !is_head && !entry_has_name(name, DEFINITION_FILE) {
        return Err(DurableOpenError::DurableStateCorrupt);
    }
    if (is_head && seen.has_head) || (!is_head && seen.has_definition) {
        return Err(DurableOpenError::DurableStateCorrupt);
    }
    match validate_cleanup_generation_document(entry.metadata, limits) {
        Err(error) => return Err(error),
        Ok(_) => {},
    }
    if is_head {
        Ok(CleanupPayloadSubset { has_head: true, has_definition: seen.has_definition })
    } else {
        Ok(CleanupPayloadSubset { has_head: seen.has_head, has_definition: true })
    }
}

/// What the revalidation of a trailing generation amounts to.
pub open spec fn generation_revalidation(
    plan: DeferredGenerationCleanup,
    observation: GenerationCleanupObservation,
    limits: StoreLimits,
) -> Result<CleanupPayloadSubset, DurableOpenError> {
    let corrupt = DurableOpenError::DurableStateCorrupt;
    if physical::cleanup_zero_shape(observation.reservation) is Err {
        Err(physical::cleanup_zero_shape(observation.reservation)->Err_0)
    } else if physical::cleanup_zero_shape(observation.published) is Err {
        Err(physical::cleanup_zero_shape(observation.published)->Err_0)
    } else if private_directory(observation.generations) is Err {
        Err(private_directory(observation.generations)->Err_0)
    } else if private_directory(observation.generation) is Err {
        Err(private_directory(observation.generation)->Err_0)
    } else {
        match observation.payload.bounded_for_cleanup(GENERATION_PAYLOAD_ENTRY_CAP) {
            Err(error) => Err(error),
            Ok(entries) => match payload_subset(listing::sorted_by_name(entries), limits) {
                Err(error) => Err(error),
                Ok(seen) => if seen.has_head == plan.has_head && seen.has_definition
                    == plan.has_definition {
                    Ok(seen)
                } else {
                    Err(corrupt)
                },
            },
        }
    }
}

/// A private directory as a cleanup sees it.
pub open spec fn private_directory(lookup: Lookup) -> Result<
    CleanupNodeIdentityShape,
    DurableOpenError,
> {
    match physical::seen_for_cleanup(lookup) {
        Err(error) => Err(error),
        Ok(metadata) => if metadata.is_private_directory() {
            Ok(metadata.identity)
        } else {
            Err(DurableOpenError::DurableStateCorrupt)
        },
    }
}

fn validate_cleanup_directory(lookup: Lookup) -> (result: Result<
    CleanupNodeIdentityShape,
    DurableOpenError,
>)
    ensures
        result == private_directory(lookup),
{
    match cleanup_metadata_without_following(lookup) {
        Err(error) => Err(error),
        Ok(metadata) => match validate_existing_directory(
            &metadata,
            DurableOpenError::DurableStateCorrupt,
        ) {
            Err(error) => Err(error),
            Ok(()) => Ok(metadata.identity),
        },
    }
}

fn walk_payload_subset(entries: &Vec<CleanupEntry>, limits: StoreLimits) -> (result: Result<
    CleanupPayloadSubset,
    DurableOpenError,
>)
    ensures
        result == payload_subset(listing::sorted_by_name(entries@), limits),
{
    let sorted = sort_entries_by_name(entries);
    let ghost order = listing::sorted_by_name(entries@);
    let mut seen = CleanupPayloadSubset { has_head: false, has_definition: false };
    let mut i: usize = 0;
    assert(order.take(0) =~= seq![]);
    while i < sorted.len()
        invariant
            i <= sorted@.len(),
            order == listing::sorted_by_name(entries@),
            listing::referenced(sorted@) == order,
            payload_subset(order.take(i as int), limits) == Ok::<
                CleanupPayloadSubset,
                DurableOpenError,
            >(seen),
        decreases sorted.len() - i,
    {
        proof {
            assert(order[i as int] == *sorted@[i as int]);
            assert(order.take(i + 1).drop_last() =~= order.take(i as int));
        }
        match take_subset_entry(seen, sorted[i], limits) {
            Err(error) => {
                proof {
                    lemma_subset_failure_persists(order, limits, i + 1);
                }
                return Err(error);
            },
            Ok(next) => {
                seen = next;
            },
        }
        i = i + 1;
    }
    assert(order.take(order.len() as int) =~= order);
    Ok(seen)
}

/// Revalidates every precondition of a trailing generation removal.
pub fn revalidate_deferred_generation_cleanup(
    plan: &DeferredGenerationCleanup,
    observation: &GenerationCleanupObservation,
    limits: StoreLimits,
) -> (result: Result<CleanupPayloadSubset, DurableOpenError>)
    ensures
        result == generation_revalidation(*plan, *observation, limits),
{
    match validate_cleanup_zero_regular_file(observation.reservation) {
        Err(error) => return Err(error),
        Ok(_) => {},
    }
    match validate_cleanup_zero_regular_file(observation.published) {
        Err(error) => return Err(error),
        Ok(_) => {},
    }
    match validate_cleanup_directory(observation.generations) {
        Err(error) => return Err(error),
        Ok(_) => {},
    }
    match validate_cleanup_directory(observation.generation) {
        Err(error) => return Err(error),
        Ok(_) => {},
    }
    let entries = match read_cleanup_entries_bounded(
        &observation.payload,
        GENERATION_PAYLOAD_ENTRY_CAP,
    ) {
        Err(error) => return Err(error),
        Ok(entries) => entries,
    };
    let seen = match walk_payload_subset(entries, limits) {
        Err(error) => return Err(error),
        Ok(seen) => seen,
    };
    if seen.has_head != plan.has_head || seen.has_definition != plan.has_definition {
        return Err(DurableOpenError::DurableStateCorrupt);
    }
    Ok(seen)
}

proof fn lemma_subset_names(entries: Seq<CleanupEntry>, limits: StoreLimits)
    requires
        payload_subset(entries, limits) is Ok,
    ensures
        forall|i: int|
            0 <= i < entries.len() ==> (#[trigger] entries[i]).name@ == listing::name_bytes(
                HEAD_FILE,
            ) || entries[i].name@ == listing::name_bytes(DEFINITION_FILE),
        forall|i: int|
            0 <= i < entries.len() ==> (#[trigger] entries[i]).name@ != listing::name_bytes(
                COMMITTED_FILE,
            ),
    decreases entries.len(),
{
    if entries.len() > 0 {
        let front = entries.drop_last();
        lemma_subset_names(front, limits);
        assert forall|i: int| 0 <= i < entries.len() implies ((#[trigger] entries[i]).name@
            == listing::name_bytes(HEAD_FILE) || entries[i].name@ == listing::name_bytes(
            DEFINITION_FILE,
        )) && entries[i].name@ != listing::name_bytes(COMMITTED_FILE) by {
            if i < front.len() {
                assert(front[i] == entries[i]);
            }
        }
    }
}

/// A trailing generation is removed only while its reservation and `PUBLISHED` still stand, its
/// directory holds nothing but payload documents, and it holds exactly those that the scan saw. A
/// `COMMITTED` name stops the removal whatever is behind it.
pub proof fn law_trailing_removal_needs_the_planned_shape(
    plan: DeferredGenerationCleanup,
    observation: GenerationCleanupObservation,
    limits: StoreLimits,
)
    requires
        generation_revalidation(plan, observation, limits) is Ok,
    ensures
        physical::cleanup_zero_shape(observation.reservation) is Ok,
        physical::cleanup_zero_shape(observation.published) is Ok,
        generation_revalidation(plan, observation, limits)->Ok_0 == (CleanupPayloadSubset {
            has_head: plan.has_head,
            has_definition: plan.has_definition,
        }),
        forall|i: int|
            0 <= i < observation.payload.entries@.len() ==> ((
            #[trigger] observation.payload.entries@[i]).name@ == listing::name_bytes(HEAD_FILE)
                || observation.payload.entries@[i].name@ == listing::name_bytes(DEFINITION_FILE))
                && observation.payload.entries@[i].name@ != listing::name_bytes(COMMITTED_FILE),
{
    let entries = observation.payload.entries@;
    let sorted = listing::sorted_by_name(entries);
    lemma_subset_names(sorted, limits);
    assert forall|i: int| 0 <= i < entries.len() implies ((#[trigger] entries[i]).name@
        == listing::name_bytes(HEAD_FILE) || entries[i].name@ == listing::name_bytes(
        DEFINITION_FILE,
    )) && entries[i].name@ != listing::name_bytes(COMMITTED_FILE) by {
        listing::lemma_sorted_contains(entries, entries[i]);
        assert(entries.contains(entries[i]));
        let k = choose|k: int| 0 <= k < sorted.len() && sorted[k] == entries[i];
        assert(sorted[k].name@ == entries[i].name@);
    }
}

/// A fresh look at everything that an entity cleanup depends on.
pub struct EntityCleanupObservation {
    pub reservation: Lookup,
    pub published: Lookup,
    pub entity: Lookup,
    pub children: DirectoryListing<CleanupEntry>,
    pub generations: DirectoryListing<CleanupEntry>,
    pub payload: DirectoryListing<CleanupEntry>,
}

/// The children of an unpublished entity while they are walked.
#[derive(Clone, Copy, PartialEq, Eq, Structural)]
pub struct EntityChildren {
    pub generations: Option<CleanupNodeIdentityShape>,
    pub conversation: Option<CleanupRegularFileShape>,
}

/// The `generations` child, looked up once for its kind and once more for its node.
pub open spec fn generations_child(entry: CleanupEntry) -> Result<
    CleanupNodeIdentityShape,
    DurableOpenError,
> {
    match physical::directory_entry(entry.metadata, DurableOpenError::DurableStateCorrupt) {
        Err(error) => Err(error),
        Ok(()) => match physical::seen_for_cleanup(entry.reread) {
            Err(error) => Err(error),
            Ok(metadata) => Ok(metadata.identity),
        },
    }
}

fn validate_generations_child(entry: &CleanupEntry) -> (result: Result<
    CleanupNodeIdentityShape,
    DurableOpenError,
>)
    ensures
        result == generations_child(*entry),
{
    match validate_directory_entry(entry.metadata, DurableOpenError::DurableStateCorrupt) {
        Err(error) => Err(error),
        Ok(()) => match cleanup_metadata_without_following(entry.reread) {
            Err(error) => Err(error),
            Ok(metadata) => Ok(metadata.identity),
        },
    }
}

pub open spec fn children_with(
    seen: EntityChildren,
    entry: CleanupEntry,
    limits: StoreLimits,
) -> Result<EntityChildren, DurableOpenError> {
    let corrupt = DurableOpenError::DurableStateCorrupt;
    if entry.name@ == listing::name_bytes(PUBLISHED_FILE) {
        Err(corrupt)
    } else if entry.name@ == listing::name_bytes(GENERATIONS_DIRECTORY) {
        if seen.generations is Some {
            Err(corrupt)
        } else {
            match generations_child(entry) {
                Err(error) => Err(error),
                Ok(shape) => Ok(EntityChildren { generations: Some(shape), ..seen }),
            }
        }
    } else if entry.name@ == listing::name_bytes(CONVERSATION_FILE) {
        if seen.conversation is Some {
            Err(corrupt)
        } else {
            match physical::conversation_shape(entry.metadata, limits) {
                Err(error) => Err(error),
                Ok(shape) => Ok(EntityChildren { conversation: Some(shape), ..seen }),
            }
        }
    } else {
        Err(corrupt)
    }
}

pub open spec fn entity_children(entries: Seq<CleanupEntry>, limits: StoreLimits) -> Result<
    EntityChildren,
    DurableOpenError,
>
    decreases entries.len(),
{
    if entries.len() == 0 {
        Ok(EntityChildren { generations: None, conversation: None })
    } else {
        match entity_children(entries.drop_last(), limits) {
            Err(error) => Err(error),
            Ok(seen) => children_with(seen, entries.last(), limits),
        }
    }
}

proof fn lemma_children_failure_persists(entries: Seq<CleanupEntry>, limits: StoreLimits, n: int)
    requires
        0 <= n <= entries.len(),
        entity_children(entries.take(n), limits) is Err,
    ensures
        entity_children(entries, limits) == entity_children(entries.take(n), limits),
    decreases entries.len(),
{
    if n == entries.len() {
        assert(entries.take(n) =~= entries);
    } else {
        assert(entries.drop_last().take(n) =~= entries.take(n));
        lemma_children_failure_persists(entries.drop_last(), limits, n);
    }
}

fn take_child(seen: EntityChildren, entry: &CleanupEntry, limits: StoreLimits) -> (result: Result<
    EntityChildren,
    DurableOpenError,
>)
    ensures
        result == children_with(seen, *entry, limits),
{
    let name = entry.name.as_slice();
    if entry_has_name(name, PUBLISHED_FILE) {
        return Err(DurableOpenError::DurableStateCorrupt);
    }
    if entry_has_name(name, GENERATIONS_DIRECTORY) {
        if seen.generations.is_some() {
            return Err(DurableOpenError::DurableStateCorrupt);
        }
        match validate_generations_child(entry) {
            Err(error) => Err(error),
            Ok(shape) => Ok(
                EntityChildren { generations: Some(shape), conversation: seen.conversation },
            ),
        }
    } else if entry_has_name(name, CONVERSATION_FILE) {
        if seen.conversation.is_some() {
            return Err(DurableOpenError::DurableStateCorrupt);
        }
        match validate_unpublished_conversation_physical_shape(entry.metadata, limits) {
            Err(error) => Err(error),
            Ok(shape) => Ok(
                EntityChildren { generations: seen.generations, conversation: Some(shape) },
            ),
        }
    } else {
        Err(DurableOpenError::DurableStateCorrupt)
    }
}

fn walk_children(entries: &Vec<CleanupEntry>, limits: StoreLimits) -> (result: Result<
    EntityChildren,
    DurableOpenError,
>)
    ensures
        result == entity_children(listing::sorted_by_name(entries@), limits),
{
    let sorted = sort_entries_by_name(entries);
    let ghost order = listing::sorted_by_name(entries@);
    let mut seen = EntityChildren { generations: None, conversation: None };
    let mut i: usize = 0;
    assert(order.take(0) =~= seq![]);
    while i < sorted.len()
        invariant
            i <= sorted@.len(),
            order == listing::sorted_by_name(entries@),
            listing::referenced(sorted@) == order,
            entity_children(order.take(i as int), limits) == Ok::<
                EntityChildren,
                DurableOpenError,
            >(seen),
        decreases sorted.len() - i,
    {
        proof {
            assert(order[i as int] == *sorted@[i as int]);
            assert(order.take(i + 1).drop_last() =~= order.take(i as int));
        }
        match take_child(seen, sorted[i], limits) {
            Err(error) => {
                proof {
                    lemma_children_failure_persists(order, limits, i + 1);
                }
                return Err(error);
            },
            Ok(next) => {
                seen = next;
            },
        }
        i = i + 1;
    }
    assert(order.take(order.len() as int) =~= order);
    Ok(seen)
}

/// The payload of an unpublished generation while it is walked.
#[derive(Clone, Copy, PartialEq, Eq, Structural)]
pub struct StagedPayload {
    pub has_committed: bool,
    pub head: Option<CleanupRegularFileShape>,
    pub definition: Option<CleanupRegularFileShape>,
}

pub open spec fn staged_with(
    seen: StagedPayload,
    entry: CleanupEntry,
    committed: Option<CleanupNodeIdentityShape>,
    limits: StoreLimits,
) -> Result<StagedPayload, DurableOpenError> {
    let corrupt = DurableOpenError::DurableStateCorrupt;
    if entry.name@ == listing::name_bytes(COMMITTED_FILE) {
        if seen.has_committed {
            Err(corrupt)
        } else {
            match physical::cleanup_zero_shape(entry.metadata) {
                Err(error) => Err(error),
                Ok(shape) => if Some(shape) == committed {
                    Ok(StagedPayload { has_committed: true, ..seen })
                } else {
                    Err(corrupt)
                },
            }
        }
    } else if entry.name@ == listing::name_bytes(HEAD_FILE) {
        if seen.head is Some {
            Err(corrupt)
        } else {
            match physical::cleanup_document_shape(entry.metadata, limits) {
                Err(error) => Err(error),
                Ok(shape) => Ok(StagedPayload { head: Some(shape), ..seen }),
            }
        }
    } else if entry.name@ == listing::name_bytes(DEFINITION_FILE) {
        if seen.definition is Some {
            Err(corrupt)
        } else {
            match physical::cleanup_document_shape(entry.metadata, limits) {
                Err(error) => Err(error),
                Ok(shape) => Ok(StagedPayload { definition: Some(shape), ..seen }),
            }
        }
    } else {
        Err(corrupt)
    }
}

pub open spec fn staged_payload(
    entries: Seq<CleanupEntry>,
    committed: Option<CleanupNodeIdentityShape>,
    limits: StoreLimits,
) -> Result<StagedPayload, DurableOpenError>
    decreases entries.len(),
{
    if entries.len() == 0 {
        Ok(StagedPayload { has_committed: false, head: None, definition: None })
    } else {
        match staged_payload(entries.drop_last(), committed, limits) {
            Err(error) => Err(error),
            Ok(seen) => staged_with(seen, entries.last(), committed, limits),
        }
    }
}

proof fn lemma_staged_failure_persists(
    entries: Seq<CleanupEntry>,
    committed: Option<CleanupNodeIdentityShape>,
    limits: StoreLimits,
    n: int,
)
    requires
        0 <= n <= entries.len(),
        staged_payload(entries.take(n), committed, limits) is Err,
    ensures
        staged_payload(entries, committed, limits) == staged_payload(
            entries.take(n),
            committed,
            limits,
        ),
    decreases entries.len(),
{
    if n == entries.len() {
        assert(entries.take(n) =~= entries);
    } else {
        assert(entries.drop_last().take(n) =~= entries.take(n));
        lemma_staged_failure_persists(entries.drop_last(), committed, limits, n);
    }
}

fn same_node(a: CleanupNodeIdentityShape, b: Option<CleanupNodeIdentityShape>) -> (same: bool)
    ensures
        same == (Some(a) == b),
{
    match b {
        Some(b) => a == b,
        None => false,
    }
}

fn same_optional_node(
    a: Option<CleanupNodeIdentityShape>,
    b: Option<CleanupNodeIdentityShape>,
) -> (same: bool)
    ensures
        same == (a == b),
{
    match a {
        Some(a) => same_node(a, b),
        None => b.is_none(),
    }
}

fn same_optional_file(
    a: Option<CleanupRegularFileShape>,
    b: Option<CleanupRegularFileShape>,
) -> (same: bool)
    ensures
        same == (a == b),
{
    match (a, b) {
        (Some(a), Some(b)) => a == b,
        (None, None) => true,
        _ => false,
    }
}

fn take_staged_entry(
    seen: StagedPayload,
    entry: &CleanupEntry,
    committed: Option<CleanupNodeIdentityShape>,
    limits: StoreLimits,
) -> (result: Result<StagedPayload, DurableOpenError>)
    ensures
        result == staged_with(seen, *entry, committed, limits),
{
    let name = entry.name.as_slice();
    if entry_has_name(name, COMMITTED_FILE) {
        if seen.has_committed {
            return Err(DurableOpenError::DurableStateCorrupt);
        }
        match validate_cleanup_zero_regular_file(entry.metadata) {
            Err(error) => Err(error),
            Ok(shape) => if same_node(shape, committed) {
                Ok(
                    StagedPayload {
                        has_committed: true,
                        head: seen.head,
                        definition: seen.definition,
                    },
                )
            } else {
                Err(DurableOpenError::DurableStateCorrupt)
            },
        }
    } else if entry_has_name(name, HEAD_FILE) {
        if seen.head.is_some() {
            return Err(DurableOpenError::DurableStateCorrupt);
        }
        match validate_cleanup_generation_document(entry.metadata, limits) {
            Err(error) => Err(error),
            Ok(shape) => Ok(
                StagedPayload {
                    has_committed: seen.has_committed,
                    head: Some(shape),
                    definition: seen.definition,
                },
            ),
        }
    } else if entry_has_name(name, DEFINITION_FILE) {
        if seen.definition.is_some() {
            return Err(DurableOpenError::DurableStateCorrupt);
        }
        match validate_cleanup_generation_document(entry.metadata, limits) {
            Err(error) => Err(error),
            Ok(shape) => Ok(
                StagedPayload {
                    has_committed: seen.has_committed,
                    head: seen.head,
                    definition: Some(shape),
                },
            ),
        }
    } else {
        Err(DurableOpenError::DurableStateCorrupt)
    }
}

/// What the revalidation of the payload of an unpublished generation amounts to.
pub open spec fn payload_revalidation(
    files: UnpublishedGenerationFiles,
    payload: DirectoryListing<CleanupEntry>,
    limits: StoreLimits,
) -> Result<(), DurableOpenError> {
    match payload.bounded_for_cleanup(GENERATION_PAYLOAD_ENTRY_CAP) {
        Err(error) => Err(error),
        Ok(entries) => match staged_payload(
            listing::sorted_by_name(entries),
            files.committed_shape,
            limits,
        ) {
            Err(error) => Err(error),
            Ok(seen) => physical::checked(
                seen == (StagedPayload {
                    has_committed: files.committed_shape is Some,
                    head: files.head_shape,
                    definition: files.definition_shape,
                }),
                DurableOpenError::DurableStateCorrupt,
            ),
        },
    }
}

fn walk_staged_payload(
    entries: &Vec<CleanupEntry>,
    committed: Option<CleanupNodeIdentityShape>,
    limits: StoreLimits,
) -> (result: Result<StagedPayload, DurableOpenError>)
    ensures
        result == staged_payload(listing::sorted_by_name(entries@), committed, limits),
{
    let sorted = sort_entries_by_name(entries);
    let ghost order = listing::sorted_by_name(entries@);
    let mut seen = StagedPayload { has_committed: false, head: None, definition: None };
    let mut i: usize = 0;
    assert(order.take(0) =~= seq![]);
    while i < sorted.len()
        invariant
            i <= sorted@.len(),
            order == listing::sorted_by_name(entries@),
            listing::referenced(sorted@) == order,
            staged_payload(order.take(i as int), committed, limits) == Ok::<
                StagedPayload,
                DurableOpenError,
            >(seen),
        decreases sorted.len() - i,
    {
        proof {
            assert(order[i as int] == *sorted@[i as int]);
            assert(order.take(i + 1).drop_last() =~= order.take(i as int));
        }
        match take_staged_entry(seen, sorted[i], committed, limits) {
            Err(error) => {
                proof {
                    lemma_staged_failure_persists(order, committed, limits, i + 1);
                }
                return Err(error);
            },
            Ok(next) => {
                seen = next;
            },
        }
        i = i + 1;
    }
    assert(order.take(order.len() as int) =~= order);
    Ok(seen)
}

pub fn revalidate_unpublished_generation_payload(
    files: &UnpublishedGenerationFiles,
    payload: &DirectoryListing<CleanupEntry>,
    limits: StoreLimits,
) -> (result: Result<(), DurableOpenError>)
    ensures
        result == payload_revalidation(*files, *payload, limits),
{
    let entries = match read_cleanup_entries_bounded(payload, GENERATION_PAYLOAD_ENTRY_CAP) {
        Err(error) => return Err(error),
        Ok(entries) => entries,
    };
    let seen = match walk_staged_payload(entries, files.committed_shape, limits) {
        Err(error) => return Err(error),
        Ok(seen) => seen,
    };
    if seen.has_committed != files.committed_shape.is_some() || !same_optional_file(
        seen.head,
        files.head_shape,
    ) || !same_optional_file(seen.definition, files.definition_shape) {
        return Err(DurableOpenError::DurableStateCorrupt);
    }
    Ok(())
}

/// The one entry of the `generations` directory of an unpublished entity.
pub open spec fn staged_generation_revalidation(
    files: UnpublishedGenerationFiles,
    entry: CleanupEntry,
    payload: DirectoryListing<CleanupEntry>,
    limits: StoreLimits,
) -> Result<(), DurableOpenError> {
    if generation::canonical_generation(entry.name@) != Some(1nat) {
        Err(DurableOpenError::DurableStateCorrupt)
    } else {
        match generations_child(entry) {
            Err(error) => Err(error),
            Ok(shape) => if shape != files.generation_shape {
                Err(DurableOpenError::DurableStateCorrupt)
            } else {
                payload_revalidation(files, payload, limits)
            },
        }
    }
}

fn revalidate_staged_generation(
    files: &UnpublishedGenerationFiles,
    entry: &CleanupEntry,
    payload: &DirectoryListing<CleanupEntry>,
    limits: StoreLimits,
) -> (result: Result<(), DurableOpenError>)
    ensures
        result == staged_generation_revalidation(*files, *entry, *payload, limits),
{
    match StorageGeneration::parse_directory_name(entry.name.as_slice()) {
        Err(_) => return Err(DurableOpenError::DurableStateCorrupt),
        Ok(generation) => if generation.get() != 1 {
            return Err(DurableOpenError::DurableStateCorrupt);
        },
    }
    match validate_generations_child(entry) {
        Err(error) => Err(error),
        Ok(shape) => if shape != files.generation_shape {
            Err(DurableOpenError::DurableStateCorrupt)
        } else {
            revalidate_unpublished_generation_payload(files, payload, limits)
        },
    }
}

/// What the revalidation of the generations of an unpublished entity amounts to.
pub open spec fn generations_revalidation(
    plan: DeferredUnpublishedEntityCleanup,
    observation: EntityCleanupObservation,
    limits: StoreLimits,
) -> Result<(), DurableOpenError> {
    match plan.generations {
        None => Ok(()),
        Some(generations) => match observation.generations.bounded_for_cleanup(
            plan.generation_collection_cap,
        ) {
            Err(error) => Err(error),
            Ok(entries) => match generations.generation {
                None => physical::checked(
                    entries.len() == 0,
                    DurableOpenError::DurableStateCorrupt,
                ),
                Some(files) => if entries.len() != 1 {
                    Err(DurableOpenError::DurableStateCorrupt)
                } else {
                    staged_generation_revalidation(
                        files,
                        entries[0],
                        observation.payload,
                        limits,
                    )
                },
            },
        },
    }
}

pub open spec fn planned_children(plan: DeferredUnpublishedEntityCleanup) -> EntityChildren {
    EntityChildren {
        generations: match plan.generations {
            Some(generations) => Some(generations.shape),
            None => None,
        },
        conversation: plan.conversation_shape,
    }
}

/// What the revalidation of an unpublished entity amounts to.
pub open spec fn entity_revalidation(
    plan: DeferredUnpublishedEntityCleanup,
    observation: EntityCleanupObservation,
    limits: StoreLimits,
) -> Result<(), DurableOpenError> {
    let corrupt = DurableOpenError::DurableStateCorrupt;
    match physical::cleanup_zero_shape(observation.reservation) {
        Err(error) => Err(error),
        Ok(reservation) => if reservation != plan.reservation_shape {
            Err(corrupt)
        } else if physical::absence(observation.published) is Err {
            physical::absence(observation.published)
        } else {
            match private_directory(observation.entity) {
                Err(error) => Err(error),
                Ok(entity) => if entity != plan.entity_shape {
                    Err(corrupt)
                } else {
                    match observation.children.bounded_for_cleanup(plan.entity_entry_cap) {
                        Err(error) => Err(error),
                        Ok(entries) => match entity_children(
                            listing::sorted_by_name(entries),
                            limits,
                        ) {
                            Err(error) => Err(error),
                            Ok(children) => if children != planned_children(plan) {
                                Err(corrupt)
                            } else {
                                generations_revalidation(plan, observation, limits)
                            },
                        },
                    }
                },
            }
        },
    }
}

fn revalidate_entity_generations(
    plan: &DeferredUnpublishedEntityCleanup,
    observation: &EntityCleanupObservation,
    limits: StoreLimits,
) -> (result: Result<(), DurableOpenError>)
    ensures
        result == generations_revalidation(*plan, *observation, limits),
{
    let generations = match plan.generations {
        None => return Ok(()),
        Some(generations) => generations,
    };
    let entries = match read_cleanup_entries_bounded(
        &observation.generations,
        plan.generation_collection_cap,
    ) {
        Err(error) => return Err(error),
        Ok(entries) => entries,
    };
    match generations.generation {
        None => if entries.len() == 0 {
            Ok(())
        } else {
            Err(DurableOpenError::DurableStateCorrupt)
        },
        Some(files) => if entries.len() != 1 {
            Err(DurableOpenError::DurableStateCorrupt)
        } else {
            revalidate_staged_generation(&files, &entries[0], &observation.payload, limits)
        },
    }
}

/// Revalidates the whole exact shape of an invisible entity before any removal.
pub fn revalidate_deferred_unpublished_entity_cleanup(
    plan: &DeferredUnpublishedEntityCleanup,
    observation: &EntityCleanupObservation,
    limits: StoreLimits,
) -> (result: Result<(), DurableOpenError>)
    ensures
        result == entity_revalidation(*plan, *observation, limits),
{
    match validate_cleanup_zero_regular_file(observation.reservation) {
        Err(error) => return Err(error),
        Ok(shape) => if shape != plan.reservation_shape {
            return Err(DurableOpenError::DurableStateCorrupt);
        },
    }
    match validate_cleanup_absent(observation.published) {
        Err(error) => return Err(error),
        Ok(()) => {},
    }
    match validate_cleanup_directory(observation.entity) {
        Err(error) => return Err(error),
        Ok(shape) => if shape != plan.entity_shape {
            return Err(DurableOpenError::DurableStateCorrupt);
        },
    }
    let entries = match read_cleanup_entries_bounded(
        &observation.children,
        plan.entity_entry_cap,
    ) {
        Err(error) => return Err(error),
        Ok(entries) => entries,
    };
    let children = match walk_children(entries, limits) {
        Err(error) => return Err(error),
        Ok(children) => children,
    };
    let planned_generations = match plan.generations {
        Some(generations) => Some(generations.shape),
        None => None,
    };
    if !same_optional_node(children.generations, planned_generations) || !same_optional_file(
        children.conversation,
        plan.conversation_shape,
    ) {
        return Err(DurableOpenError::DurableStateCorrupt);
    }
    revalidate_entity_generations(plan, observation, limits)
}

proof fn lemma_children_names(entries: Seq<CleanupEntry>, limits: StoreLimits)
    requires
        entity_children(entries, limits) is Ok,
    ensures
        forall|i: int|
            0 <= i < entries.len() ==> (#[trigger] entries[i]).name@ != listing::name_bytes(
                PUBLISHED_FILE,
            ),
    decreases entries.len(),
{
    if entries.len() > 0 {
        let front = entries.drop_last();
        lemma_children_names(front, limits);
        assert forall|i: int| 0 <= i < entries.len() implies (#[trigger] entries[i]).name@
            != listing::name_bytes(PUBLISHED_FILE) by {
            if i < front.len() {
                assert(front[i] == entries[i]);
            }
        }
    }
}

/// An invisible entity is removed only while it is still invisible, on the very nodes that the scan
/// saw: its reservation, its own directory, its `generations` directory and its conversation.
pub proof fn law_entity_removal_needs_the_planned_shape(
    plan: DeferredUnpublishedEntityCleanup,
    observation: EntityCleanupObservation,
    limits: StoreLimits,
)
    requires
        entity_revalidation(plan, observation, limits) is Ok,
    ensures
        physical::cleanup_zero_shape(observation.reservation) == Ok::<
            CleanupNodeIdentityShape,
            DurableOpenError,
        >(plan.reservation_shape),
        physical::absence(observation.published) is Ok,
        private_directory(observation.entity) == Ok::<CleanupNodeIdentityShape, DurableOpenError>(
            plan.entity_shape,
        ),
        entity_children(listing::sorted_by_name(observation.children.entries@), limits) == Ok::<
            EntityChildren,
            DurableOpenError,
        >(planned_children(plan)),
        forall|i: int|
            0 <= i < observation.children.entries@.len() ==> (
            #[trigger] observation.children.entries@[i]).name@ != listing::name_bytes(
                PUBLISHED_FILE,
            ),
{
    let entries = observation.children.entries@;
    let sorted = listing::sorted_by_name(entries);
    lemma_children_names(sorted, limits);
    assert forall|i: int| 0 <= i < entries.len() implies (#[trigger] entries[i]).name@
        != listing::name_bytes(PUBLISHED_FILE) by {
        listing::lemma_sorted_contains(entries, entries[i]);
        assert(entries.contains(entries[i]));
        let k = choose|k: int| 0 <= k < sorted.len() && sorted[k] == entries[i];
        assert(sorted[k].name@ == entries[i].name@);
    }
}

} // verus!
