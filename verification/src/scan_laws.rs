//! Which directories a scan accepts, said over the names and nodes that they show.

use crate::entity_scan;
use crate::entity_scan::{
    EntityKind, EntityObservation, EntityScanModel, UnpublishedEntityFiles, UnpublishedGenerations,
};
use crate::generation;
use crate::generation::StorageGeneration;
use crate::generation_scan;
use crate::generation_scan::{
    CommittedGenerationFiles, GenerationEntryObservation, GenerationPayloadObservation,
    MarkerlessGenerationFiles, PhysicalGenerationPayload, UnpublishedGenerationFiles,
};
use crate::listing;
use crate::listing::DirectoryListing;
use crate::open_error::DurableOpenError;
use crate::physical;
use crate::physical::{
    CleanupNodeIdentityShape, CleanupRegularFileShape, Lookup, LookupError, NodeKind, StoreLimits,
};
use crate::scan_errors;
use vstd::prelude::*;
use vstd::utf8;

verus! {

/// A directory is listed exactly if it could be opened, holds no more than the maximum, and was walked
/// to its end; too many entries are too large even where the walk broke off.
pub proof fn law_listings_are_bounded<T>(listing: DirectoryListing<T>, maximum: usize)
    ensures
        listing.bounded(maximum) == if listing.opened is Err {
            Err::<Seq<T>, DurableOpenError>(DurableOpenError::StorageUnavailable)
        } else if listing.entries@.len() > maximum {
            Err(DurableOpenError::DurableStateTooLarge)
        } else if listing.interrupted {
            Err(DurableOpenError::StorageUnavailable)
        } else {
            Ok(listing.entries@)
        },
        listing.bounded_for_cleanup(maximum) == if listing.opened == Err::<(), LookupError>(
            LookupError::NotFound,
        ) {
            Err::<Seq<T>, DurableOpenError>(DurableOpenError::DurableStateCorrupt)
        } else {
            listing.bounded(maximum)
        },
        listing::emptiness(listing) == Ok::<bool, DurableOpenError>(true) <==> listing.opened is Ok
            && listing.entries@.len() == 0 && !listing.interrupted,
        listing::emptiness(listing) == Ok::<bool, DurableOpenError>(false) <==> listing.opened is Ok
            && listing.entries@.len() > 0,
{
}

/// Whether a name is among some names.
pub open spec fn is_listed(names: Seq<Vec<u8>>, name: &str) -> bool {
    exists|i: int| 0 <= i < names.len() && (#[trigger] names[i])@ == utf8::encode_utf8(name@)
}

/// Whether every name is one of three, and none comes twice.
pub open spec fn are_known(names: Seq<Vec<u8>>, first: &str, second: &str, third: &str) -> bool {
    &&& forall|i: int|
        0 <= i < names.len() ==> (#[trigger] names[i])@ == utf8::encode_utf8(first@) || names[i]@
            == utf8::encode_utf8(second@) || names[i]@ == utf8::encode_utf8(third@)
    &&& forall|i: int, j: int|
        0 <= i < j < names.len() ==> (#[trigger] names[i])@ != (#[trigger] names[j])@
}

/// A child is known by its exact name, and by nothing else.
pub proof fn law_children_are_known_by_name(
    names: Seq<Vec<u8>>,
    first: &str,
    second: &str,
    third: &str,
)
    ensures
        listing::has_name(names, first) <==> is_listed(names, first),
        listing::unknown_child(names, first, second, third) <==> !are_known(
            names,
            first,
            second,
            third,
        ),
{
}

/// Whether the files of a generation directory are in order: no unknown child, and every listed
/// document a private file within the limit.
pub open spec fn payload_is_sound(
    payload: GenerationPayloadObservation,
    limits: StoreLimits,
) -> bool {
    let names = payload.listing.entries@;
    &&& payload.listing.opened is Ok
    &&& !payload.listing.interrupted
    &&& names.len() <= 3
    &&& are_known(names, "head.json", "definition.json", "COMMITTED")
    &&& is_listed(names, "head.json") ==> physical::document_shape(payload.head, limits) is Ok
    &&& is_listed(names, "definition.json") ==> physical::document_shape(
        payload.definition,
        limits,
    ) is Ok
    &&& is_listed(names, "COMMITTED") ==> payload.committed.outcome() is Ok
}

/// A generation directory of a published entity is accepted exactly if its files are in order and a
/// committed one has a head. With `COMMITTED` it is committed, with or without a definition; without it
/// any of its documents may be there or not, and it is markerless.
pub proof fn law_a_generation_directory(
    generation: StorageGeneration,
    payload: GenerationPayloadObservation,
    limits: StoreLimits,
)
    ensures
        ({
            let names = payload.listing.entries@;
            let outcome = generation_scan::payload_outcome(generation, payload, limits);
            &&& outcome is Ok <==> payload_is_sound(payload, limits) && (is_listed(
                names,
                "COMMITTED",
            ) ==> is_listed(names, "head.json"))
            &&& outcome matches Ok(files) ==> files == if is_listed(names, "COMMITTED") {
                PhysicalGenerationPayload::Committed(
                    CommittedGenerationFiles {
                        generation,
                        has_definition: is_listed(names, "definition.json"),
                    },
                )
            } else {
                PhysicalGenerationPayload::Markerless(
                    MarkerlessGenerationFiles {
                        generation,
                        has_head: is_listed(names, "head.json"),
                        has_definition: is_listed(names, "definition.json"),
                    },
                )
            }
        }),
{
    let names = payload.listing.entries@;
    law_children_are_known_by_name(names, "head.json", "definition.json", "COMMITTED");
    law_children_are_known_by_name(names, "definition.json", "head.json", "COMMITTED");
    law_children_are_known_by_name(names, "COMMITTED", "head.json", "definition.json");
    scan_errors::law_size_dominates(
        generation_scan::payload_errors(names, payload, limits),
        seq![],
        DurableOpenError::DurableStateCorrupt,
    );
}

/// The generation directory of an unpublished entity is accepted exactly if its files are in order and
/// a committed one has both documents; every file is known by what was seen of it.
pub proof fn law_an_unpublished_generation_directory(
    shape: CleanupNodeIdentityShape,
    payload: GenerationPayloadObservation,
    limits: StoreLimits,
)
    ensures
        ({
            let names = payload.listing.entries@;
            let outcome = generation_scan::unpublished_payload_outcome(shape, payload, limits);
            &&& outcome is Ok <==> payload_is_sound(payload, limits) && (is_listed(
                names,
                "COMMITTED",
            ) ==> is_listed(names, "head.json") && is_listed(names, "definition.json"))
            &&& outcome matches Ok(files) ==> {
                &&& files.generation_shape == shape
                &&& files.committed_shape == if is_listed(names, "COMMITTED") {
                    Some(payload.committed.outcome()->Ok_0)
                } else {
                    None::<CleanupNodeIdentityShape>
                }
                &&& files.head_shape == if is_listed(names, "head.json") {
                    Some(physical::document_shape(payload.head, limits)->Ok_0)
                } else {
                    None::<CleanupRegularFileShape>
                }
                &&& files.definition_shape == if is_listed(names, "definition.json") {
                    Some(physical::document_shape(payload.definition, limits)->Ok_0)
                } else {
                    None::<CleanupRegularFileShape>
                }
            }
        }),
{
    let names = payload.listing.entries@;
    law_children_are_known_by_name(names, "head.json", "definition.json", "COMMITTED");
    law_children_are_known_by_name(names, "definition.json", "head.json", "COMMITTED");
    law_children_are_known_by_name(names, "COMMITTED", "head.json", "definition.json");
    scan_errors::law_size_dominates(
        generation_scan::unpublished_payload_errors(names, payload, limits),
        seq![],
        DurableOpenError::DurableStateCorrupt,
    );
}

/// Whether a node was seen as a private directory.
pub open spec fn is_private_directory(lookup: Lookup) -> bool {
    match lookup {
        Ok(metadata) => metadata.kind == NodeKind::Directory && metadata.mode % 4096 == 448,
        Err(_) => false,
    }
}

/// The `generations` directory of an unpublished entity is accepted exactly if it is empty, or holds
/// nothing but the first generation, in a private directory that is accepted itself.
pub proof fn law_unpublished_generations(
    listing: DirectoryListing<GenerationEntryObservation>,
    maximum: usize,
    limits: StoreLimits,
)
    requires
        maximum >= 1,
    ensures
        ({
            let entries = listing.entries@;
            let outcome = generation_scan::unpublished_generation_outcome(listing, maximum, limits);
            let walked = listing.opened is Ok && !listing.interrupted;
            &&& outcome == Ok::<Option<UnpublishedGenerationFiles>, DurableOpenError>(None)
                <==> walked && entries.len() == 0
            &&& forall|files: UnpublishedGenerationFiles|
                outcome == Ok::<Option<UnpublishedGenerationFiles>, DurableOpenError>(Some(files))
                    <==> {
                    &&& walked && entries.len() == 1
                    &&& entries[0].name@ == generation::generation_name(1)
                    &&& is_private_directory(entries[0].metadata)
                    &&& #[trigger] generation_scan::unpublished_payload_outcome(
                        entries[0].metadata->Ok_0.identity,
                        entries[0].payload,
                        limits,
                    ) == Ok::<UnpublishedGenerationFiles, DurableOpenError>(files)
                }
        }),
{
    let entries = listing.entries@;
    generation::lemma_canonical_generation(1);
    if entries.len() == 1 {
        assert(entries.drop_last() =~= seq![]);
        let walk = generation_scan::unpublished_walk(entries, limits);
        assert(generation_scan::unpublished_walk(entries.drop_last(), limits).errors.len() == 0);
        scan_errors::law_size_dominates(
            walk.errors + scan_errors::corrupt_if(entries.len() != 1 || walk.first is None),
            seq![],
            DurableOpenError::DurableStateCorrupt,
        );
    } else if entries.len() > 1 {
        let walk = generation_scan::unpublished_walk(entries, limits);
        scan_errors::law_size_dominates(
            walk.errors + scan_errors::corrupt_if(entries.len() != 1 || walk.first is None),
            seq![],
            DurableOpenError::DurableStateCorrupt,
        );
    }
}

proof fn lemma_order_is_given(
    entries: Seq<GenerationEntryObservation>,
    places: Seq<int>,
)
    requires
        places.len() == entries.len(),
        entries.len() <= 1_000_000,
        forall|k: int|
            0 <= k < places.len() ==> 0 <= #[trigger] places[k] < entries.len()
                && entries[places[k]].name@ == generation::generation_name((k + 1) as nat),
        forall|i: int| 0 <= i < entries.len() ==> places.contains(i),
    ensures
        generation_scan::generation_order(entries) == places,
        forall|k: int|
            0 <= k < places.len() ==> generation_scan::entry_generation(
                entries[#[trigger] places[k]],
            ) == Some((k + 1) as nat),
        forall|i: int|
            0 <= i < entries.len() ==> generation_scan::entry_generation(
                #[trigger] entries[i],
            ) is Some,
{
    let keys = generation_scan::generation_keys(entries);
    let given = Seq::new(
        places.len(),
        |k: int| generation_scan::generation_key((k + 1) as nat, places[k]),
    );
    assert forall|k: int| 0 <= k < places.len() implies generation_scan::entry_generation(
        entries[#[trigger] places[k]],
    ) == Some((k + 1) as nat) && given[k] == (k + 1) * generation_scan::INDEX_SPAN + places[k]
        && given[k] as int % generation_scan::INDEX_SPAN as int == places[k] by {
        generation::lemma_canonical_generation((k + 1) as nat);
        generation_scan::lemma_key_decodes((k + 1) as nat, places[k]);
    }
    assert forall|i: int| 0 <= i < entries.len() implies generation_scan::entry_generation(
        #[trigger] entries[i],
    ) is Some by {
        assert(places.contains(i));
        let k = choose|k: int| 0 <= k < places.len() && places[k] == i;
        assert(generation_scan::entry_generation(entries[places[k]]) is Some);
    }
    assert forall|j: int, k: int| 0 <= j < k < given.len() implies given[j] < given[k] by {
        assert(0 <= places[j] < entries.len());
        assert(0 <= places[k] < entries.len());
        assert((k + 1) * generation_scan::INDEX_SPAN >= (j + 2) * generation_scan::INDEX_SPAN)
            by (nonlinear_arith)
            requires
                j < k,
                generation_scan::INDEX_SPAN == 0x1_0000_0000_0000_0000,
        ;
    }
    assert forall|key: u128| keys.contains(key) == given.to_set().contains(key) by {
        if keys.contains(key) {
            let i = choose|i: int|
                0 <= i < entries.len() && generation_scan::entry_generation(
                    #[trigger] entries[i],
                ) is Some && key == generation_scan::generation_key(
                    generation_scan::entry_generation(entries[i])->0,
                    i,
                );
            assert(places.contains(i));
            let k = choose|k: int| 0 <= k < places.len() && places[k] == i;
            assert(generation_scan::entry_generation(entries[places[k]]) == Some((k + 1) as nat));
            assert(given[k] == key);
        }
        if given.to_set().contains(key) {
            let k = choose|k: int| 0 <= k < given.len() && given[k] == key;
            assert(generation_scan::entry_generation(entries[places[k]]) == Some((k + 1) as nat));
        }
    }
    assert(keys =~= given.to_set());
    vstd::seq_lib::seq_to_set_is_finite(given);
    crate::idmap::lemma_ascending_ids(keys);
    crate::idmap::lemma_ascending_unique(crate::idmap::ascending_ids(keys), given);
    assert(generation_scan::generation_order(entries) =~= places) by {
        assert forall|k: int| 0 <= k < places.len() implies generation_scan::generation_order(
            entries,
        )[k] == places[k] by {
            assert(given[k] as int % generation_scan::INDEX_SPAN as int == places[k]);
        }
    }
}

proof fn lemma_walk_is_clean(
    entries: Seq<GenerationEntryObservation>,
    places: Seq<int>,
    files: Seq<PhysicalGenerationPayload>,
    limits: StoreLimits,
)
    requires
        files.len() == places.len(),
        forall|k: int|
            0 <= k < places.len() ==> {
                let entry = entries[#[trigger] places[k]];
                &&& generation_scan::entry_generation(entry) == Some((k + 1) as nat)
                &&& is_private_directory(entry.metadata)
                &&& generation_scan::payload_outcome(
                    StorageGeneration::of((k + 1) as nat),
                    entry.payload,
                    limits,
                ) == Ok::<PhysicalGenerationPayload, DurableOpenError>(files[k])
            },
    ensures
        generation_scan::walk_errors(entries, places, limits).len() == 0,
        generation_scan::walk_payloads(entries, places, limits) == files,
    decreases places.len(),
{
    if places.len() > 0 {
        let last = places.len() - 1;
        assert forall|k: int| 0 <= k < places.drop_last().len() implies {
            let entry = entries[#[trigger] places.drop_last()[k]];
            &&& generation_scan::entry_generation(entry) == Some((k + 1) as nat)
            &&& is_private_directory(entry.metadata)
            &&& generation_scan::payload_outcome(
                StorageGeneration::of((k + 1) as nat),
                entry.payload,
                limits,
            ) == Ok::<PhysicalGenerationPayload, DurableOpenError>(files.drop_last()[k])
        } by {
            assert(places.drop_last()[k] == places[k]);
        }
        lemma_walk_is_clean(entries, places.drop_last(), files.drop_last(), limits);
        assert(places.last() == places[last]);
        assert(generation_scan::walk_payloads(entries, places, limits) =~= files);
    } else {
        assert(generation_scan::walk_payloads(entries, places, limits) =~= files);
    }
}

/// What a run of accepted generations amounts to.
pub open spec fn committed_files(files: Seq<PhysicalGenerationPayload>) -> Seq<
    CommittedGenerationFiles,
> {
    Seq::new(
        if files.last() is Committed {
            files.len()
        } else {
            (files.len() - 1) as nat
        },
        |k: int| files[k]->Committed_0,
    )
}

proof fn lemma_chain_is_whole(files: Seq<PhysicalGenerationPayload>)
    requires
        files.len() > 0,
        forall|k: int|
            0 <= k < files.len() ==> (#[trigger] files[k]).generation() == k + 1 && (files[k]
                is Committed || (0 < k && k == files.len() - 1)),
    ensures
        ({
            let chain = generation_scan::chained(files);
            &&& chain.misplaced == 0
            &&& chain.committed == committed_files(files)
            &&& chain.markerless == match files.last() {
                PhysicalGenerationPayload::Markerless(markerless) => Some(markerless),
                PhysicalGenerationPayload::Committed(_) => None,
            }
        }),
    decreases files.len(),
{
    let front = files.drop_last();
    assert(files[files.len() - 1] == files.last());
    if front.len() > 0 {
        assert forall|k: int| 0 <= k < front.len() implies (#[trigger] front[k]).generation() == k
            + 1 && (front[k] is Committed || (0 < k && k == front.len() - 1)) by {
            assert(front[k] == files[k]);
        }
        lemma_chain_is_whole(front);
        assert(front.last() == files[front.len() - 1]);
        assert(front.last() is Committed);
    } else {
        assert(generation_scan::chained(front).committed.len() == 0);
    }
    assert(generation_scan::chained(files).committed =~= committed_files(files));
}

/// Every run of generations is accepted, however it was listed: numbered from one without a gap, each
/// in a private directory that is accepted itself, all committed but possibly the last. It is taken
/// exactly as it is.
pub proof fn law_every_run_of_generations_is_accepted(
    listing: DirectoryListing<GenerationEntryObservation>,
    places: Seq<int>,
    files: Seq<PhysicalGenerationPayload>,
    maximum: usize,
    limits: StoreLimits,
)
    requires
        listing.opened is Ok,
        !listing.interrupted,
        0 < listing.entries@.len() <= maximum,
        listing.entries@.len() <= 1_000_000,
        places.len() == listing.entries@.len(),
        files.len() == listing.entries@.len(),
        forall|i: int| 0 <= i < listing.entries@.len() ==> places.contains(i),
        forall|k: int|
            0 <= k < places.len() ==> 0 <= #[trigger] places[k] < listing.entries@.len() && {
                let entry = listing.entries@[places[k]];
                &&& entry.name@ == generation::generation_name((k + 1) as nat)
                &&& is_private_directory(entry.metadata)
                &&& generation_scan::payload_outcome(
                    StorageGeneration::of((k + 1) as nat),
                    entry.payload,
                    limits,
                ) == Ok::<PhysicalGenerationPayload, DurableOpenError>(files[k])
                &&& files[k] is Committed || (0 < k && k == places.len() - 1)
            },
    ensures
        generation_scan::chain_outcome(listing, maximum, limits) matches Ok(chain) && {
            &&& chain.committed == committed_files(files)
            &&& chain.markerless == match files.last() {
                PhysicalGenerationPayload::Markerless(markerless) => Some(markerless),
                PhysicalGenerationPayload::Committed(_) => None,
            }
        },
{
    let entries = listing.entries@;
    lemma_order_is_given(entries, places);
    lemma_walk_is_clean(entries, places, files, limits);
    assert forall|k: int| 0 <= k < files.len() implies (#[trigger] files[k]).generation() == k + 1
        && (files[k] is Committed || (0 < k && k == files.len() - 1)) by {
        assert(0 <= places[k] < entries.len());
        StorageGeneration::lemma_of_ordinal((k + 1) as nat);
        law_a_generation_directory(
            StorageGeneration::of((k + 1) as nat),
            entries[places[k]].payload,
            limits,
        );
    }
    lemma_chain_is_whole(files);
    lemma_names_are_clean(entries);
    let errors = generation_scan::chain_errors(entries, limits);
    assert(errors.len() == 0);
    scan_errors::law_size_dominates(errors, seq![], DurableOpenError::DurableStateCorrupt);
}

proof fn lemma_names_are_clean(entries: Seq<GenerationEntryObservation>)
    requires
        forall|i: int|
            0 <= i < entries.len() ==> generation_scan::entry_generation(
                #[trigger] entries[i],
            ) is Some,
    ensures
        generation_scan::generation_name_errors(entries).len() == 0,
    decreases entries.len(),
{
    if entries.len() > 0 {
        let front = entries.drop_last();
        assert forall|i: int| 0 <= i < front.len() implies generation_scan::entry_generation(
            #[trigger] front[i],
        ) is Some by {
            assert(front[i] == entries[i]);
        }
        lemma_names_are_clean(front);
    }
}

/// Whether the children of an entity are in order: it was listed to its end, holds no unknown child and
/// none twice. Only a Session has a conversation.
pub open spec fn children_are_known(observation: EntityObservation, kind: EntityKind) -> bool {
    let names = observation.listing.entries@;
    &&& observation.listing.opened is Ok
    &&& !observation.listing.interrupted
    &&& match kind {
        EntityKind::Agent => names.len() <= 2 && are_known(
            names,
            "PUBLISHED",
            "generations",
            "generations",
        ),
        EntityKind::Session => names.len() <= 3 && are_known(
            names,
            "PUBLISHED",
            "generations",
            "conversation.jsonl",
        ),
    }
}

/// Whether an entity lists a conversation where it may have one.
pub open spec fn lists_conversation(observation: EntityObservation, kind: EntityKind) -> bool {
    kind == EntityKind::Session && is_listed(observation.listing.entries@, "conversation.jsonl")
}

/// Whether a node was seen as a private file.
pub open spec fn is_private_file(lookup: Lookup) -> bool {
    match lookup {
        Ok(metadata) => metadata.kind == NodeKind::Regular && metadata.mode % 4096 == 384,
        Err(_) => false,
    }
}

/// Whether the `generations` directory was seen and entered.
pub open spec fn is_entered(observation: EntityObservation) -> bool {
    &&& is_listed(observation.listing.entries@, "generations")
    &&& match observation.generations_entry {
        Ok(metadata) => metadata.kind == NodeKind::Directory,
        Err(_) => false,
    }
}

pub proof fn lemma_entity_names(observation: EntityObservation, kind: EntityKind)
    ensures
        ({
            let listed = observation.listing.entries@;
            let names = entity_scan::entity_names(listed, kind);
            &&& names.published == is_listed(listed, "PUBLISHED")
            &&& names.generations == is_listed(listed, "generations")
            &&& names.conversation == lists_conversation(observation, kind)
            &&& children_are_known(observation, kind) <==> observation.listing.bounded(
                kind.entry_cap(),
            ) is Ok && !names.unknown
            &&& entity_scan::enters_generations(observation, names) == is_entered(observation)
        }),
{
    let listed = observation.listing.entries@;
    law_children_are_known_by_name(listed, "PUBLISHED", "generations", "generations");
    law_children_are_known_by_name(listed, "PUBLISHED", "generations", "conversation.jsonl");
    law_children_are_known_by_name(listed, "generations", "generations", "conversation.jsonl");
    law_children_are_known_by_name(listed, "conversation.jsonl", "generations", "conversation.jsonl");
}

/// An entity is published exactly if it lists `PUBLISHED`, an empty marker, with the `generations`
/// directory and, of a Session, the conversation beside it, and its generations are accepted. The
/// conversation of a published Session is a private file of any length. What is scanned is its chain.
pub proof fn law_published_entities(
    observation: EntityObservation,
    kind: EntityKind,
    maximum: usize,
    limits: StoreLimits,
)
    ensures
        ({
            let names = observation.listing.entries@;
            let outcome = entity_scan::entity_outcome(observation, kind, maximum, limits);
            let chain = generation_scan::chain_outcome(observation.generations, maximum, limits);
            &&& (outcome is Ok && outcome->Ok_0 is Published) <==> {
                &&& children_are_known(observation, kind)
                &&& is_listed(names, "PUBLISHED") && observation.published.outcome() is Ok
                &&& is_entered(observation) && is_private_directory(observation.generations_exit)
                &&& kind == EntityKind::Session ==> lists_conversation(observation, kind)
                    && is_private_file(observation.conversation_exit)
                &&& chain is Ok
            }
            &&& outcome matches Ok(EntityScanModel::Published { committed, markerless }) ==> {
                &&& committed == chain->Ok_0.committed
                &&& markerless == chain->Ok_0.markerless
            }
            &&& outcome is Ok ==> (outcome->Ok_0 is Published <==> is_listed(names, "PUBLISHED"))
        }),
{
    reveal(entity_scan::entity_outcome);
    lemma_entity_names(observation, kind);
    let names = entity_scan::entity_names(observation.listing.entries@, kind);
    scan_errors::law_size_dominates(
        entity_scan::entity_errors(observation, names, kind, maximum, limits),
        seq![],
        DurableOpenError::DurableStateCorrupt,
    );
}

/// Whether the staging of an unpublished entity is in order. A conversation needs a generation, and a
/// committed Session needs a conversation, within the limit.
pub open spec fn staging_is_sound(
    observation: EntityObservation,
    kind: EntityKind,
    maximum: usize,
    limits: StoreLimits,
) -> bool {
    let generation = generation_scan::unpublished_generation_outcome(
        observation.generations,
        maximum,
        limits,
    );
    &&& is_listed(observation.listing.entries@, "generations") ==> observation.generations_entry
        is Ok && is_private_directory(observation.generations_exit)
    &&& is_entered(observation) ==> observation.generations_node is Ok && generation is Ok
    &&& lists_conversation(observation, kind) ==> {
        &&& physical::conversation_shape(observation.conversation_node, limits) is Ok
        &&& is_private_file(observation.conversation_exit)
        &&& is_entered(observation) && generation->Ok_0 is Some
    }
    &&& kind == EntityKind::Session && is_entered(observation) && (generation->Ok_0 matches Some(
        files,
    ) && files.committed_shape is Some) ==> lists_conversation(observation, kind)
}

/// An entity without `PUBLISHED` is staging exactly if its children and their contents are in order;
/// each part may be there or not. What is scanned is what was seen of each part.
pub proof fn law_unpublished_entities(
    observation: EntityObservation,
    kind: EntityKind,
    maximum: usize,
    limits: StoreLimits,
)
    ensures
        ({
            let names = observation.listing.entries@;
            let outcome = entity_scan::entity_outcome(observation, kind, maximum, limits);
            &&& (outcome is Ok && outcome->Ok_0 is Unpublished) <==> {
                &&& children_are_known(observation, kind)
                &&& !is_listed(names, "PUBLISHED")
                &&& observation.entity is Ok
                &&& staging_is_sound(observation, kind, maximum, limits)
            }
            &&& outcome matches Ok(EntityScanModel::Unpublished(files)) ==> files == (
            UnpublishedEntityFiles {
                entity_shape: observation.entity->Ok_0.identity,
                generations: if is_entered(observation) {
                    Some(
                        UnpublishedGenerations {
                            shape: observation.generations_node->Ok_0.identity,
                            generation: generation_scan::unpublished_generation_outcome(
                                observation.generations,
                                maximum,
                                limits,
                            )->Ok_0,
                        },
                    )
                } else {
                    None
                },
                conversation_shape: if lists_conversation(observation, kind) {
                    Some(
                        physical::conversation_shape(observation.conversation_node, limits)->Ok_0,
                    )
                } else {
                    None
                },
            })
        }),
{
    reveal(entity_scan::entity_outcome);
    lemma_entity_names(observation, kind);
    let names = entity_scan::entity_names(observation.listing.entries@, kind);
    let facts = entity_scan::staging_facts(observation, maximum, limits);
    let staging = entity_scan::staging_errors(
        facts,
        is_entered(observation),
        names.conversation,
        kind,
    );
    scan_errors::law_size_dominates(staging, seq![], DurableOpenError::DurableStateCorrupt);
    scan_errors::law_size_dominates(
        entity_scan::entity_errors(observation, names, kind, maximum, limits),
        seq![],
        DurableOpenError::DurableStateCorrupt,
    );
}

} // verus!
