//! The physical scan of generation directories.
//!
//! A `COMMITTED` name is authoritative: once it is seen it must be a valid marker beside a complete
//! payload, and its generation is never taken for removable staging.

use crate::generation;
use crate::generation::StorageGeneration;
use crate::idmap;
use crate::idmap::ascending_keys;
use crate::listing;
use crate::listing::{
    contains_named_entry, has_unknown_child, read_entries_bounded, DirectoryListing,
    COMMITTED_FILE, DEFINITION_FILE, GENERATION_PAYLOAD_ENTRY_CAP, HEAD_FILE,
};
use crate::open_error::DurableOpenError;
use crate::physical;
use crate::physical::{
    metadata_without_following, validate_existing_directory,
    validate_generation_document_physical_shape, validate_zero_regular_file,
    CleanupNodeIdentityShape, CleanupRegularFileShape, Lookup, StoreLimits,
    ZeroFileObservation,
};
use crate::scan_errors;
use crate::scan_errors::PhysicalScanErrors;
use std::collections::BTreeMap;
use vstd::prelude::*;

verus! {

/// What one generation directory shows: its names and the nodes behind the three known ones.
pub struct GenerationPayloadObservation {
    pub listing: DirectoryListing<Vec<u8>>,
    pub head: Lookup,
    pub definition: Lookup,
    pub committed: ZeroFileObservation,
}

/// One entry of a `generations` directory.
pub struct GenerationEntryObservation {
    pub name: Vec<u8>,
    pub metadata: Lookup,
    pub payload: GenerationPayloadObservation,
}

/// The physical files of a committed generation.
#[derive(Clone, Copy, PartialEq, Eq, Structural)]
pub struct CommittedGenerationFiles {
    pub generation: StorageGeneration,
    pub has_definition: bool,
}

/// A markerless generation's exact, non-semantic physical shape. Its documents are never decoded:
/// each allowed subset can be an interrupted write or an interrupted cleanup.
#[derive(Clone, Copy, PartialEq, Eq, Structural)]
pub struct MarkerlessGenerationFiles {
    pub generation: StorageGeneration,
    pub has_head: bool,
    pub has_definition: bool,
}

#[derive(Clone, Copy, PartialEq, Eq, Structural)]
pub enum PhysicalGenerationPayload {
    Committed(CommittedGenerationFiles),
    Markerless(MarkerlessGenerationFiles),
}

/// The committed generations from the first one on, and at most one markerless one behind them.
pub struct PhysicalGenerationScan {
    pub committed: Vec<CommittedGenerationFiles>,
    pub markerless: Option<MarkerlessGenerationFiles>,
}

/// The sole permitted physical generation inside an unpublished entity: the first one.
#[derive(Clone, Copy, PartialEq, Eq, Structural)]
pub struct UnpublishedGenerationFiles {
    pub generation_shape: CleanupNodeIdentityShape,
    pub committed_shape: Option<CleanupNodeIdentityShape>,
    pub head_shape: Option<CleanupRegularFileShape>,
    pub definition_shape: Option<CleanupRegularFileShape>,
}

impl PhysicalGenerationPayload {
    pub open spec fn generation(self) -> nat {
        match self {
            PhysicalGenerationPayload::Committed(files) => files.generation@,
            PhysicalGenerationPayload::Markerless(files) => files.generation@,
        }
    }
}

/// The names that a generation directory may hold.
pub open spec fn unknown_payload_child(names: Seq<Vec<u8>>) -> bool {
    listing::unknown_child(names, HEAD_FILE, DEFINITION_FILE, COMMITTED_FILE)
}

/// The errors of one generation payload, in the order in which they are recorded.
pub open spec fn payload_errors(
    names: Seq<Vec<u8>>,
    payload: GenerationPayloadObservation,
    limits: StoreLimits,
) -> Seq<DurableOpenError> {
    (if listing::has_name(names, HEAD_FILE) {
        scan_errors::noted(physical::document_shape(payload.head, limits))
    } else {
        scan_errors::corrupt_if(listing::has_name(names, COMMITTED_FILE))
    }) + (if listing::has_name(names, DEFINITION_FILE) {
        scan_errors::noted(physical::document_shape(payload.definition, limits))
    } else {
        seq![]
    }) + (if listing::has_name(names, COMMITTED_FILE) {
        scan_errors::noted(payload.committed.outcome())
    } else {
        seq![]
    }) + scan_errors::corrupt_if(unknown_payload_child(names))
}

pub open spec fn payload_files(
    generation: StorageGeneration,
    names: Seq<Vec<u8>>,
) -> PhysicalGenerationPayload {
    if listing::has_name(names, COMMITTED_FILE) {
        PhysicalGenerationPayload::Committed(
            CommittedGenerationFiles {
                generation,
                has_definition: listing::has_name(names, DEFINITION_FILE),
            },
        )
    } else {
        PhysicalGenerationPayload::Markerless(
            MarkerlessGenerationFiles {
                generation,
                has_head: listing::has_name(names, HEAD_FILE),
                has_definition: listing::has_name(names, DEFINITION_FILE),
            },
        )
    }
}

pub open spec fn payload_outcome(
    generation: StorageGeneration,
    payload: GenerationPayloadObservation,
    limits: StoreLimits,
) -> Result<PhysicalGenerationPayload, DurableOpenError> {
    match payload.listing.bounded(GENERATION_PAYLOAD_ENTRY_CAP) {
        Err(error) => Err(error),
        Ok(names) => scan_errors::settled(
            payload_errors(names, payload, limits),
            payload_files(generation, names),
        ),
    }
}

pub fn scan_physical_generation_payload(
    generation: StorageGeneration,
    payload: &GenerationPayloadObservation,
    limits: StoreLimits,
) -> (result: Result<PhysicalGenerationPayload, DurableOpenError>)
    ensures
        result == payload_outcome(generation, *payload, limits),
{
    let names = match read_entries_bounded(&payload.listing, GENERATION_PAYLOAD_ENTRY_CAP) {
        Ok(names) => names,
        Err(error) => return Err(error),
    };
    let has_head = contains_named_entry(names, HEAD_FILE);
    let has_definition = contains_named_entry(names, DEFINITION_FILE);
    let has_committed = contains_named_entry(names, COMMITTED_FILE);
    let unknown_child = has_unknown_child(names, HEAD_FILE, DEFINITION_FILE, COMMITTED_FILE);
    let mut errors = PhysicalScanErrors::new();
    if has_head {
        errors.record(validate_generation_document_physical_shape(payload.head, limits));
    } else {
        errors.note_corrupt_if(has_committed);
    }
    if has_definition {
        errors.record(validate_generation_document_physical_shape(payload.definition, limits));
    }
    if has_committed {
        errors.record(validate_zero_regular_file(&payload.committed));
    }
    errors.note_corrupt_if(unknown_child);
    assert(errors@ =~= payload_errors(names@, *payload, limits));
    match errors.finish() {
        Err(error) => return Err(error),
        Ok(()) => {},
    }
    if has_committed {
        Ok(
            PhysicalGenerationPayload::Committed(
                CommittedGenerationFiles { generation, has_definition },
            ),
        )
    } else {
        Ok(
            PhysicalGenerationPayload::Markerless(
                MarkerlessGenerationFiles { generation, has_head, has_definition },
            ),
        )
    }
}

/// How many entries of one listing can be told apart.
pub const INDEX_SPAN: u128 = 0x1_0000_0000_0000_0000;

/// Orders entries by generation, and entries of one generation by their place in the listing.
pub open spec fn generation_key(generation: nat, index: int) -> u128 {
    (generation * INDEX_SPAN + index) as u128
}

pub open spec fn entry_generation(entry: GenerationEntryObservation) -> Option<nat> {
    generation::canonical_generation(entry.name@)
}

pub open spec fn generation_keys(entries: Seq<GenerationEntryObservation>) -> Set<u128> {
    Set::new(
        |key: u128|
            exists|i: int|
                0 <= i < entries.len() && entry_generation(#[trigger] entries[i]) is Some && key
                    == generation_key(entry_generation(entries[i])->0, i),
    )
}

/// The places of the canonically named entries, lowest generation first.
pub open spec fn generation_order(entries: Seq<GenerationEntryObservation>) -> Seq<int> {
    idmap::ascending_ids(generation_keys(entries)).map_values(
        |key: u128| key as int % INDEX_SPAN as int,
    )
}

/// One error for each entry without a canonical name.
pub open spec fn generation_name_errors(entries: Seq<GenerationEntryObservation>) -> Seq<
    DurableOpenError,
>
    decreases entries.len(),
{
    if entries.len() == 0 {
        seq![]
    } else {
        generation_name_errors(entries.drop_last()) + scan_errors::corrupt_if(
            entry_generation(entries.last()) is None,
        )
    }
}

/// The payload of one canonically named entry, unless it is no directory or its payload fails.
pub open spec fn visited_payload(
    entry: GenerationEntryObservation,
    limits: StoreLimits,
) -> Option<PhysicalGenerationPayload> {
    match entry.metadata {
        Ok(metadata) if metadata.kind is Directory => match payload_outcome(
            StorageGeneration::of(entry_generation(entry)->0),
            entry.payload,
            limits,
        ) {
            Ok(payload) => Some(payload),
            Err(_) => None,
        },
        _ => None,
    }
}

pub open spec fn visit_errors(entry: GenerationEntryObservation, limits: StoreLimits) -> Seq<
    DurableOpenError,
> {
    match physical::seen(entry.metadata) {
        Err(error) => seq![error],
        Ok(metadata) => scan_errors::corrupt_if(!metadata.is_private_directory()) + (
        if metadata.kind is Directory {
            scan_errors::noted(
                payload_outcome(
                    StorageGeneration::of(entry_generation(entry)->0),
                    entry.payload,
                    limits,
                ),
            )
        } else {
            seq![]
        }),
    }
}

pub open spec fn walk_errors(
    entries: Seq<GenerationEntryObservation>,
    order: Seq<int>,
    limits: StoreLimits,
) -> Seq<DurableOpenError>
    decreases order.len(),
{
    if order.len() == 0 {
        seq![]
    } else {
        walk_errors(entries, order.drop_last(), limits) + visit_errors(
            entries[order.last()],
            limits,
        )
    }
}

pub open spec fn walk_payloads(
    entries: Seq<GenerationEntryObservation>,
    order: Seq<int>,
    limits: StoreLimits,
) -> Seq<PhysicalGenerationPayload>
    decreases order.len(),
{
    if order.len() == 0 {
        seq![]
    } else {
        let before = walk_payloads(entries, order.drop_last(), limits);
        match visited_payload(entries[order.last()], limits) {
            Some(payload) => before.push(payload),
            None => before,
        }
    }
}

/// A chain of generations while it is put together.
pub struct GenerationChain {
    pub committed: Seq<CommittedGenerationFiles>,
    pub markerless: Option<MarkerlessGenerationFiles>,
    pub misplaced: nat,
}

impl GenerationChain {
    /// Whether a payload continues the chain: it is the next generation, nothing markerless came
    /// before it, and a markerless one follows at least one committed one.
    pub open spec fn continued_by(self, payload: PhysicalGenerationPayload) -> bool {
        &&& self.markerless is None
        &&& payload.generation() == self.committed.len() + 1
        &&& payload is Markerless ==> self.committed.len() > 0
    }

    pub open spec fn with(self, payload: PhysicalGenerationPayload) -> Self {
        if !self.continued_by(payload) {
            GenerationChain { misplaced: self.misplaced + 1, ..self }
        } else {
            match payload {
                PhysicalGenerationPayload::Committed(files) => GenerationChain {
                    committed: self.committed.push(files),
                    ..self
                },
                PhysicalGenerationPayload::Markerless(files) => GenerationChain {
                    markerless: Some(files),
                    ..self
                },
            }
        }
    }
}

pub open spec fn chained(payloads: Seq<PhysicalGenerationPayload>) -> GenerationChain
    decreases payloads.len(),
{
    if payloads.len() == 0 {
        GenerationChain { committed: seq![], markerless: None, misplaced: 0 }
    } else {
        chained(payloads.drop_last()).with(payloads.last())
    }
}

pub open spec fn corruptions(count: nat) -> Seq<DurableOpenError> {
    Seq::new(count, |i: int| DurableOpenError::DurableStateCorrupt)
}

/// The errors of a whole generation chain, in the order in which they are recorded.
pub open spec fn chain_errors(
    entries: Seq<GenerationEntryObservation>,
    limits: StoreLimits,
) -> Seq<DurableOpenError> {
    let order = generation_order(entries);
    let chain = chained(walk_payloads(entries, order, limits));
    generation_name_errors(entries) + walk_errors(entries, order, limits) + corruptions(
        chain.misplaced,
    ) + scan_errors::corrupt_if(chain.committed.len() == 0)
}

/// What the scan of a `generations` directory amounts to.
pub open spec fn chain_outcome(
    listing: DirectoryListing<GenerationEntryObservation>,
    maximum: usize,
    limits: StoreLimits,
) -> Result<GenerationChain, DurableOpenError> {
    match listing.bounded(maximum) {
        Err(error) => Err(error),
        Ok(entries) => scan_errors::settled(
            chain_errors(entries, limits),
            chained(walk_payloads(entries, generation_order(entries), limits)),
        ),
    }
}

pub open spec fn is_chain_outcome(
    result: Result<PhysicalGenerationScan, DurableOpenError>,
    model: Result<GenerationChain, DurableOpenError>,
) -> bool {
    match result {
        Ok(scan) => model matches Ok(chain) && scan.committed@ == chain.committed
            && scan.markerless == chain.markerless,
        Err(error) => model == Err::<GenerationChain, DurableOpenError>(error),
    }
}

pub proof fn lemma_key_decodes(generation: nat, index: int)
    requires
        generation <= generation::MAXIMUM_GENERATION,
        0 <= index < INDEX_SPAN,
    ensures
        generation_key(generation, index) == generation * INDEX_SPAN + index,
        generation_key(generation, index) as int % INDEX_SPAN as int == index,
{
    assert(generation * INDEX_SPAN + index <= u128::MAX) by (nonlinear_arith)
        requires
            generation <= 1_000_000,
            0 <= index < INDEX_SPAN,
            INDEX_SPAN == 0x1_0000_0000_0000_0000,
    ;
    vstd::arithmetic::div_mod::lemma_fundamental_div_mod_converse(
        generation * INDEX_SPAN + index,
        INDEX_SPAN as int,
        generation as int,
        index,
    );
}

/// The canonically named entries under their keys.
spec fn indexes(
    positions: Map<u128, (StorageGeneration, usize)>,
    entries: Seq<GenerationEntryObservation>,
) -> bool {
    &&& positions.dom() == generation_keys(entries)
    &&& forall|key: u128| #[trigger]
        positions.contains_key(key) ==> {
            let (generation, index) = positions[key];
            &&& index < entries.len()
            &&& index as int == key as int % INDEX_SPAN as int
            &&& entry_generation(entries[index as int]) == Some(generation@)
        }
}

fn place_generations(
    entries: &Vec<GenerationEntryObservation>,
    errors: &mut PhysicalScanErrors,
) -> (positions: BTreeMap<u128, (StorageGeneration, usize)>)
    ensures
        indexes(positions@, entries@),
        final(errors)@ == old(errors)@ + generation_name_errors(entries@),
{
    let mut positions: BTreeMap<u128, (StorageGeneration, usize)> = BTreeMap::new();
    let mut i: usize = 0;
    proof {
        assert(entries@.take(0) =~= seq![]);
        assert(positions@.dom() =~= generation_keys(entries@.take(0)));
        assert(errors@ =~= old(errors)@ + generation_name_errors(entries@.take(0)));
    }
    while i < entries.len()
        invariant
            i <= entries@.len(),
            indexes(positions@, entries@.take(i as int)),
            errors@ == old(errors)@ + generation_name_errors(entries@.take(i as int)),
        decreases entries.len() - i,
    {
        let entry: &GenerationEntryObservation = &entries[i];
        let ghost before = entries@.take(i as int);
        let ghost after = entries@.take(i + 1);
        let ghost seen_positions = positions@;
        proof {
            assert(after.drop_last() =~= before);
            assert(after.last() == *entry);
            assert forall|k: int| 0 <= k < i implies after[k] == before[k] by {}
        }
        match StorageGeneration::parse_directory_name(entry.name.as_slice()) {
            Err(_) => {
                errors.note(DurableOpenError::DurableStateCorrupt);
                proof {
                    assert(errors@ =~= old(errors)@ + generation_name_errors(after));
                    assert forall|key: u128| generation_keys(after).contains(key) implies
                        generation_keys(before).contains(key) by {
                        let k = choose|k: int|
                            0 <= k < after.len() && entry_generation(#[trigger] after[k]) is Some
                                && key == generation_key(entry_generation(after[k])->0, k);
                        assert(before[k] == after[k]);
                    }
                    assert forall|key: u128| generation_keys(before).contains(key) implies
                        generation_keys(after).contains(key) by {
                        let k = choose|k: int|
                            0 <= k < before.len() && entry_generation(#[trigger] before[k]) is Some
                                && key == generation_key(entry_generation(before[k])->0, k);
                        assert(before[k] == after[k]);
                    }
                    assert(generation_keys(after) =~= generation_keys(before));
                }
            },
            Ok(generation) => {
                let ordinal: u32 = generation.get();
                assert(i < INDEX_SPAN);
                proof {
                    lemma_key_decodes(generation@, i as int);
                }
                let key: u128 = place_key(ordinal, i);
                positions.insert(key, (generation, i));
                proof {
                    assert(errors@ =~= old(errors)@ + generation_name_errors(after));
                    assert forall|other: u128| generation_keys(after).contains(other) implies
                        positions@.dom().contains(other) by {
                        let k = choose|k: int|
                            0 <= k < after.len() && entry_generation(#[trigger] after[k]) is Some
                                && other == generation_key(entry_generation(after[k])->0, k);
                        if k < i {
                            assert(before[k] == after[k]);
                            assert(generation_keys(before).contains(other));
                        }
                    }
                    assert forall|other: u128| positions@.dom().contains(other) implies
                        generation_keys(after).contains(other) by {
                        if other == key {
                            assert(entry_generation(after[i as int]) is Some);
                        } else {
                            assert(generation_keys(before).contains(other));
                            let k = choose|k: int|
                                0 <= k < before.len() && entry_generation(#[trigger] before[k]) is Some
                                    && other == generation_key(entry_generation(before[k])->0, k);
                            assert(before[k] == after[k]);
                        }
                    }
                    assert(positions@.dom() =~= generation_keys(after));
                    assert forall|other: u128| #[trigger] positions@.contains_key(other) implies {
                        let (g, index) = positions@[other];
                        &&& index < after.len()
                        &&& index as int == other as int % INDEX_SPAN as int
                        &&& entry_generation(after[index as int]) == Some(g@)
                    } by {
                        if other != key {
                            assert(seen_positions.contains_key(other));
                        }
                    }
                }
            },
        }
        i = i + 1;
    }
    assert(entries@.take(entries@.len() as int) =~= entries@);
    positions
}

fn place_key(ordinal: u32, index: usize) -> (key: u128)
    requires
        ordinal <= generation::MAXIMUM_GENERATION,
    ensures
        key == generation_key(ordinal as nat, index as int),
{
    proof {
        lemma_key_decodes(ordinal as nat, index as int);
    }
    assert(ordinal * INDEX_SPAN <= u128::MAX) by (nonlinear_arith)
        requires
            ordinal <= 1_000_000,
            INDEX_SPAN == 0x1_0000_0000_0000_0000,
    ;
    ordinal as u128 * INDEX_SPAN + index as u128
}

fn walk_generations(
    entries: &Vec<GenerationEntryObservation>,
    positions: &BTreeMap<u128, (StorageGeneration, usize)>,
    limits: StoreLimits,
    errors: &mut PhysicalScanErrors,
) -> (payloads: Vec<PhysicalGenerationPayload>)
    requires
        indexes(positions@, entries@),
    ensures
        payloads@ == walk_payloads(entries@, generation_order(entries@), limits),
        final(errors)@ == old(errors)@ + walk_errors(entries@, generation_order(entries@), limits),
{
    let keys = ascending_keys(positions);
    let ghost order = generation_order(entries@);
    let mut payloads: Vec<PhysicalGenerationPayload> = Vec::new();
    let mut i: usize = 0;
    proof {
        assert(order.take(0) =~= seq![]);
        assert(order.len() == keys@.len());
        assert(errors@ =~= old(errors)@ + walk_errors(entries@, order.take(0), limits));
    }
    while i < keys.len()
        invariant
            i <= keys@.len(),
            indexes(positions@, entries@),
            keys@ == idmap::ascending_ids(positions@.dom()),
            keys@.to_set() == positions@.dom(),
            order == generation_order(entries@),
            order.len() == keys@.len(),
            payloads@ == walk_payloads(entries@, order.take(i as int), limits),
            errors@ == old(errors)@ + walk_errors(entries@, order.take(i as int), limits),
        decreases keys.len() - i,
    {
        let key: u128 = keys[i];
        proof {
            assert(keys@.to_set().contains(key));
            assert(positions@.contains_key(key));
            assert(order[i as int] == key as int % INDEX_SPAN as int);
            assert(order.take(i + 1).drop_last() =~= order.take(i as int));
        }
        let ghost errors_before = errors@;
        if let Some(position) = positions.get(&key) {
            let generation: StorageGeneration = position.0;
            let entry: &GenerationEntryObservation = &entries[position.1];
            proof {
                generation.lemma_of();
                assert(entries@[order.take(i + 1).last()] == *entry);
            }
            match metadata_without_following(entry.metadata) {
                Err(error) => {
                    errors.note(error);
                },
                Ok(metadata) => {
                    errors.record(
                        validate_existing_directory(
                            &metadata,
                            DurableOpenError::DurableStateCorrupt,
                        ),
                    );
                    if metadata.is_directory() {
                        let outcome = scan_physical_generation_payload(
                            generation,
                            &entry.payload,
                            limits,
                        );
                        if let Some(payload) = errors.record(outcome) {
                            payloads.push(payload);
                        }
                    }
                },
            }
            assert(errors@ =~= errors_before + visit_errors(*entry, limits));
        }
        assert(errors@ =~= old(errors)@ + walk_errors(entries@, order.take(i + 1), limits));
        i = i + 1;
    }
    assert(order.take(order.len() as int) =~= order);
    payloads
}

fn chain_generations(
    payloads: &Vec<PhysicalGenerationPayload>,
    errors: &mut PhysicalScanErrors,
) -> (scan: PhysicalGenerationScan)
    ensures
        scan.committed@ == chained(payloads@).committed,
        scan.markerless == chained(payloads@).markerless,
        final(errors)@ == old(errors)@ + corruptions(chained(payloads@).misplaced)
            + scan_errors::corrupt_if(chained(payloads@).committed.len() == 0),
{
    let mut committed: Vec<CommittedGenerationFiles> = Vec::new();
    let mut markerless: Option<MarkerlessGenerationFiles> = None;
    let mut i: usize = 0;
    proof {
        assert(payloads@.take(0) =~= seq![]);
        assert(errors@ =~= old(errors)@ + corruptions(0));
    }
    while i < payloads.len()
        invariant
            i <= payloads@.len(),
            committed@ == chained(payloads@.take(i as int)).committed,
            markerless == chained(payloads@.take(i as int)).markerless,
            errors@ == old(errors)@ + corruptions(chained(payloads@.take(i as int)).misplaced),
        decreases payloads.len() - i,
    {
        let ghost chain = chained(payloads@.take(i as int));
        proof {
            assert(payloads@.take(i + 1).drop_last() =~= payloads@.take(i as int));
        }
        let accepted = match payloads[i] {
            PhysicalGenerationPayload::Committed(files) => {
                let is_next = follows(&committed, files.generation);
                if markerless.is_none() && is_next {
                    committed.push(files);
                    true
                } else {
                    false
                }
            },
            PhysicalGenerationPayload::Markerless(files) => {
                let is_next = follows(&committed, files.generation);
                if markerless.is_none() && committed.len() > 0 && is_next {
                    markerless = Some(files);
                    true
                } else {
                    false
                }
            },
        };
        if !accepted {
            errors.note(DurableOpenError::DurableStateCorrupt);
        }
        proof {
            assert(accepted == chain.continued_by(payloads@[i as int]));
            assert(errors@ =~= old(errors)@ + corruptions(
                chained(payloads@.take(i + 1)).misplaced,
            ));
        }
        i = i + 1;
    }
    assert(payloads@.take(payloads@.len() as int) =~= payloads@);
    errors.note_corrupt_if(committed.len() == 0);
    PhysicalGenerationScan { committed, markerless }
}

/// Whether a generation is the one after the committed ones.
fn follows(committed: &Vec<CommittedGenerationFiles>, generation: StorageGeneration) -> (result:
    bool)
    ensures
        result == (generation@ == committed@.len() + 1),
{
    let ordinal: u32 = generation.get();
    committed.len() as u64 == (ordinal - 1) as u64
}

/// Scans the generation layout that Agents and Sessions share, before either domain decodes a
/// document.
pub fn scan_physical_generation_chain(
    listing: &DirectoryListing<GenerationEntryObservation>,
    maximum: usize,
    limits: StoreLimits,
) -> (result: Result<PhysicalGenerationScan, DurableOpenError>)
    ensures
        is_chain_outcome(result, chain_outcome(*listing, maximum, limits)),
{
    let entries = match read_entries_bounded(listing, maximum) {
        Ok(entries) => entries,
        Err(error) => return Err(error),
    };
    let mut errors = PhysicalScanErrors::new();
    let positions = place_generations(entries, &mut errors);
    let payloads = walk_generations(entries, &positions, limits, &mut errors);
    let scan = chain_generations(&payloads, &mut errors);
    assert(errors@ =~= chain_errors(entries@, limits));
    match errors.finish() {
        Ok(()) => Ok(scan),
        Err(error) => Err(error),
    }
}

proof fn lemma_chained_shape(payloads: Seq<PhysicalGenerationPayload>)
    ensures
        ({
            let chain = chained(payloads);
            &&& forall|i: int|
                0 <= i < chain.committed.len() ==> (#[trigger] chain.committed[i]).generation@ == i
                    + 1
            &&& chain.markerless matches Some(files) ==> chain.committed.len() > 0
                && files.generation@ == chain.committed.len() + 1
        }),
    decreases payloads.len(),
{
    if payloads.len() > 0 {
        lemma_chained_shape(payloads.drop_last());
    }
}

/// Whether a listed entry is in a chain: under its own generation, with exactly its files.
pub open spec fn is_in_chain(
    chain: GenerationChain,
    entry: GenerationEntryObservation,
    limits: StoreLimits,
) -> bool {
    match entry_generation(entry) {
        None => false,
        Some(generation) => {
            let payload = payload_outcome(StorageGeneration::of(generation), entry.payload, limits);
            if 1 <= generation <= chain.committed.len() {
                payload == Ok::<PhysicalGenerationPayload, DurableOpenError>(
                    PhysicalGenerationPayload::Committed(chain.committed[generation - 1]),
                )
            } else {
                &&& generation == chain.committed.len() + 1
                &&& chain.markerless is Some
                &&& payload == Ok::<PhysicalGenerationPayload, DurableOpenError>(
                    PhysicalGenerationPayload::Markerless(chain.markerless->0),
                )
            }
        },
    }
}

proof fn lemma_all_named(entries: Seq<GenerationEntryObservation>)
    requires
        generation_name_errors(entries).len() == 0,
    ensures
        forall|i: int| 0 <= i < entries.len() ==> entry_generation(#[trigger] entries[i]) is Some,
    decreases entries.len(),
{
    if entries.len() > 0 {
        let front = entries.drop_last();
        lemma_all_named(front);
        assert forall|i: int| 0 <= i < entries.len() implies entry_generation(
            #[trigger] entries[i],
        ) is Some by {
            if i < front.len() {
                assert(front[i] == entries[i]);
            }
        }
    }
}

proof fn lemma_walk_takes_all(
    entries: Seq<GenerationEntryObservation>,
    order: Seq<int>,
    limits: StoreLimits,
)
    requires
        walk_errors(entries, order, limits).len() == 0,
    ensures
        walk_payloads(entries, order, limits).len() == order.len(),
        forall|k: int|
            0 <= k < order.len() ==> visited_payload(entries[#[trigger] order[k]], limits) == Some(
                walk_payloads(entries, order, limits)[k],
            ),
    decreases order.len(),
{
    if order.len() > 0 {
        let front = order.drop_last();
        lemma_walk_takes_all(entries, front, limits);
        let entry = entries[order.last()];
        assert(visit_errors(entry, limits).len() == 0);
        assert(visited_payload(entry, limits) is Some);
        assert forall|k: int| 0 <= k < order.len() implies visited_payload(
            entries[#[trigger] order[k]],
            limits,
        ) == Some(walk_payloads(entries, order, limits)[k]) by {
            if k < front.len() {
                assert(front[k] == order[k]);
            }
        }
    }
}

proof fn lemma_chain_takes_all(payloads: Seq<PhysicalGenerationPayload>)
    requires
        chained(payloads).misplaced == 0,
    ensures
        ({
            let chain = chained(payloads);
            &&& payloads.len() == chain.committed.len() + if chain.markerless is Some {
                1nat
            } else {
                0
            }
            &&& forall|k: int|
                0 <= k < payloads.len() ==> (#[trigger] payloads[k]).generation() == k + 1
                    && payloads[k] == if k < chain.committed.len() {
                    PhysicalGenerationPayload::Committed(chain.committed[k])
                } else {
                    PhysicalGenerationPayload::Markerless(chain.markerless->0)
                }
        }),
    decreases payloads.len(),
{
    if payloads.len() > 0 {
        let front = payloads.drop_last();
        lemma_chain_takes_all(front);
        let chain = chained(payloads);
        assert forall|k: int| 0 <= k < payloads.len() implies (#[trigger] payloads[k]).generation()
            == k + 1 && payloads[k] == if k < chain.committed.len() {
            PhysicalGenerationPayload::Committed(chain.committed[k])
        } else {
            PhysicalGenerationPayload::Markerless(chain.markerless->0)
        } by {
            if k < front.len() {
                assert(front[k] == payloads[k]);
            }
        }
    }
}

/// Every entry of a listing with canonical names only has its place in the order.
proof fn lemma_order_takes_all(entries: Seq<GenerationEntryObservation>, i: int) -> (place: int)
    requires
        entries.len() <= usize::MAX,
        forall|k: int| 0 <= k < entries.len() ==> entry_generation(#[trigger] entries[k]) is Some,
        0 <= i < entries.len(),
    ensures
        0 <= place < generation_order(entries).len(),
        generation_order(entries)[place] == i,
{
    let keys = generation_keys(entries);
    let all = Seq::new(
        entries.len(),
        |k: int| generation_key(entry_generation(entries[k])->0, k),
    );
    assert forall|key: u128| keys.contains(key) == all.to_set().contains(key) by {
        if keys.contains(key) {
            let k = choose|k: int|
                0 <= k < entries.len() && entry_generation(#[trigger] entries[k]) is Some && key
                    == generation_key(entry_generation(entries[k])->0, k);
            assert(all[k] == key);
        }
        if all.to_set().contains(key) {
            let k = choose|k: int| 0 <= k < all.len() && all[k] == key;
            assert(entry_generation(entries[k]) is Some);
        }
    }
    assert(keys =~= all.to_set());
    vstd::seq_lib::seq_to_set_is_finite(all);
    idmap::lemma_ascending_ids(keys);
    let ids = idmap::ascending_ids(keys);
    let generation = entry_generation(entries[i])->0;
    let key = generation_key(generation, i);
    assert(keys.contains(key));
    assert(ids.to_set().contains(key));
    let place = choose|k: int| 0 <= k < ids.len() && ids[k] == key;
    lemma_key_decodes(generation, i);
    place
}

proof fn lemma_entry_is_in_chain(
    entries: Seq<GenerationEntryObservation>,
    limits: StoreLimits,
    i: int,
) -> (place: int)
    requires
        entries.len() <= usize::MAX,
        chain_errors(entries, limits).len() == 0,
        0 <= i < entries.len(),
    ensures
        0 <= place < generation_order(entries).len(),
        generation_order(entries)[place] == i,
        entry_generation(entries[i]) == Some((place + 1) as nat),
        is_in_chain(
            chained(walk_payloads(entries, generation_order(entries), limits)),
            entries[i],
            limits,
        ),
{
    let order = generation_order(entries);
    let payloads = walk_payloads(entries, order, limits);
    let chain = chained(payloads);
    assert(generation_name_errors(entries).len() == 0);
    assert(walk_errors(entries, order, limits).len() == 0);
    assert(corruptions(chain.misplaced).len() == 0);
    lemma_all_named(entries);
    lemma_walk_takes_all(entries, order, limits);
    lemma_chain_takes_all(payloads);
    let place = lemma_order_takes_all(entries, i);
    let generation = entry_generation(entries[i])->0;
    assert(visited_payload(entries[order[place]], limits) == Some(payloads[place]));
    StorageGeneration::lemma_of_ordinal(generation);
    assert(payloads[place].generation() == generation);
    place
}

/// An accepted chain starts at the first generation and has no gap; a markerless generation is the
/// one directly behind the last committed one. Everything that is listed is in the chain, under its
/// own generation and with exactly its files, and no generation is listed twice.
pub proof fn law_accepted_chain_is_contiguous(
    listing: DirectoryListing<GenerationEntryObservation>,
    maximum: usize,
    limits: StoreLimits,
)
    requires
        chain_outcome(listing, maximum, limits) is Ok,
    ensures
        ({
            let chain = chain_outcome(listing, maximum, limits)->Ok_0;
            &&& chain.committed.len() >= 1
            &&& forall|i: int|
                0 <= i < chain.committed.len() ==> (#[trigger] chain.committed[i]).generation@ == i
                    + 1
            &&& chain.markerless matches Some(files) ==> files.generation@
                == chain.committed.len() + 1
            &&& forall|i: int|
                0 <= i < listing.entries@.len() ==> is_in_chain(
                    chain,
                    #[trigger] listing.entries@[i],
                    limits,
                )
            &&& forall|i: int, j: int|
                0 <= i < j < listing.entries@.len() ==> entry_generation(
                    #[trigger] listing.entries@[i],
                ) != entry_generation(#[trigger] listing.entries@[j])
        }),
{
    let entries = listing.entries@;
    let order = generation_order(entries);
    let payloads = walk_payloads(entries, order, limits);
    lemma_chained_shape(payloads);
    let errors = chain_errors(entries, limits);
    assert(errors.len() == 0);
    assert forall|i: int| 0 <= i < entries.len() implies is_in_chain(
        chained(payloads),
        #[trigger] entries[i],
        limits,
    ) by {
        lemma_entry_is_in_chain(entries, limits, i);
    }
    assert forall|i: int, j: int| 0 <= i < j < entries.len() implies entry_generation(
        #[trigger] entries[i],
    ) != entry_generation(#[trigger] entries[j]) by {
        lemma_entry_is_in_chain(entries, limits, i);
        lemma_entry_is_in_chain(entries, limits, j);
    }
}

/// A generation directory that shows a `COMMITTED` name is never taken for markerless staging.
pub proof fn law_committed_name_is_authoritative(
    generation: StorageGeneration,
    payload: GenerationPayloadObservation,
    limits: StoreLimits,
)
    ensures
        listing::has_name(payload.listing.entries@, COMMITTED_FILE) ==> !(payload_outcome(
            generation,
            payload,
            limits,
        ) matches Ok(PhysicalGenerationPayload::Markerless(_))),
        payload_outcome(generation, payload, limits) matches Ok(
            PhysicalGenerationPayload::Committed(_),
        ) ==> payload.committed.outcome() is Ok && listing::has_name(
            payload.listing.entries@,
            HEAD_FILE,
        ) && physical::document_shape(payload.head, limits) is Ok,
{
    let names = payload.listing.entries@;
    if payload_outcome(generation, payload, limits) is Ok {
        assert(payload_errors(names, payload, limits).len() == 0);
    }
}

/// The errors of the payload of an unpublished generation, in the order in which they are recorded.
pub open spec fn unpublished_payload_errors(
    names: Seq<Vec<u8>>,
    payload: GenerationPayloadObservation,
    limits: StoreLimits,
) -> Seq<DurableOpenError> {
    (if listing::has_name(names, HEAD_FILE) {
        scan_errors::noted(physical::document_shape(payload.head, limits))
    } else {
        seq![]
    }) + (if listing::has_name(names, DEFINITION_FILE) {
        scan_errors::noted(physical::document_shape(payload.definition, limits))
    } else {
        seq![]
    }) + (if listing::has_name(names, COMMITTED_FILE) {
        scan_errors::noted(payload.committed.outcome())
    } else {
        seq![]
    }) + scan_errors::corrupt_if(
        unknown_payload_child(names) || (listing::has_name(names, COMMITTED_FILE) && (
        !listing::has_name(names, HEAD_FILE) || !listing::has_name(names, DEFINITION_FILE))),
    )
}

pub open spec fn unpublished_payload_files(
    shape: CleanupNodeIdentityShape,
    names: Seq<Vec<u8>>,
    payload: GenerationPayloadObservation,
    limits: StoreLimits,
) -> UnpublishedGenerationFiles {
    UnpublishedGenerationFiles {
        generation_shape: shape,
        committed_shape: if listing::has_name(names, COMMITTED_FILE) {
            Some(payload.committed.outcome()->Ok_0)
        } else {
            None
        },
        head_shape: if listing::has_name(names, HEAD_FILE) {
            Some(physical::document_shape(payload.head, limits)->Ok_0)
        } else {
            None
        },
        definition_shape: if listing::has_name(names, DEFINITION_FILE) {
            Some(physical::document_shape(payload.definition, limits)->Ok_0)
        } else {
            None
        },
    }
}

pub open spec fn unpublished_payload_outcome(
    shape: CleanupNodeIdentityShape,
    payload: GenerationPayloadObservation,
    limits: StoreLimits,
) -> Result<UnpublishedGenerationFiles, DurableOpenError> {
    match payload.listing.bounded(GENERATION_PAYLOAD_ENTRY_CAP) {
        Err(error) => Err(error),
        Ok(names) => scan_errors::settled(
            unpublished_payload_errors(names, payload, limits),
            unpublished_payload_files(shape, names, payload, limits),
        ),
    }
}

pub fn scan_unpublished_generation_payload(
    payload: &GenerationPayloadObservation,
    generation_shape: CleanupNodeIdentityShape,
    limits: StoreLimits,
) -> (result: Result<UnpublishedGenerationFiles, DurableOpenError>)
    ensures
        result == unpublished_payload_outcome(generation_shape, *payload, limits),
{
    let names = match read_entries_bounded(&payload.listing, GENERATION_PAYLOAD_ENTRY_CAP) {
        Ok(names) => names,
        Err(error) => return Err(error),
    };
    let has_head = contains_named_entry(names, HEAD_FILE);
    let has_definition = contains_named_entry(names, DEFINITION_FILE);
    let has_committed = contains_named_entry(names, COMMITTED_FILE);
    let unknown_child = has_unknown_child(names, HEAD_FILE, DEFINITION_FILE, COMMITTED_FILE);
    let mut errors = PhysicalScanErrors::new();
    let head_shape = if has_head {
        errors.record(validate_generation_document_physical_shape(payload.head, limits))
    } else {
        None
    };
    let definition_shape = if has_definition {
        errors.record(validate_generation_document_physical_shape(payload.definition, limits))
    } else {
        None
    };
    let committed_shape = if has_committed {
        errors.record(validate_zero_regular_file(&payload.committed))
    } else {
        None
    };
    errors.note_corrupt_if(unknown_child || (has_committed && (!has_head || !has_definition)));
    assert(errors@ =~= unpublished_payload_errors(names@, *payload, limits));
    match errors.finish() {
        Err(error) => return Err(error),
        Ok(()) => {},
    }
    assert(unpublished_payload_errors(names@, *payload, limits).len() == 0);
    Ok(
        UnpublishedGenerationFiles {
            generation_shape,
            committed_shape,
            head_shape,
            definition_shape,
        },
    )
}

/// The scan of the generations of an unpublished entity while it goes on.
pub struct UnpublishedGenerationScan {
    pub first: Option<UnpublishedGenerationFiles>,
    pub errors: Seq<DurableOpenError>,
}

impl UnpublishedGenerationScan {
    pub open spec fn noting(self, errors: Seq<DurableOpenError>) -> Self {
        UnpublishedGenerationScan { errors: self.errors + errors, ..self }
    }

    /// Takes in one entry: only a first generation counts, and only one.
    pub open spec fn with(self, entry: GenerationEntryObservation, limits: StoreLimits) -> Self {
        if entry_generation(entry) is None {
            self.noting(seq![DurableOpenError::DurableStateCorrupt])
        } else {
            match physical::seen(entry.metadata) {
                Err(error) => self.noting(seq![error]),
                Ok(metadata) => {
                    let entered = self.noting(
                        scan_errors::corrupt_if(!metadata.is_private_directory()),
                    );
                    if metadata.kind !is Directory {
                        entered
                    } else {
                        match unpublished_payload_outcome(
                            metadata.identity,
                            entry.payload,
                            limits,
                        ) {
                            Err(error) => entered.noting(seq![error]),
                            Ok(files) => if entry_generation(entry) != Some(1nat) {
                                entered.noting(seq![DurableOpenError::DurableStateCorrupt])
                            } else {
                                let replaced = UnpublishedGenerationScan {
                                    first: Some(files),
                                    ..entered
                                };
                                replaced.noting(scan_errors::corrupt_if(self.first is Some))
                            },
                        }
                    }
                },
            }
        }
    }
}

pub open spec fn unpublished_walk(
    entries: Seq<GenerationEntryObservation>,
    limits: StoreLimits,
) -> UnpublishedGenerationScan
    decreases entries.len(),
{
    if entries.len() == 0 {
        UnpublishedGenerationScan { first: None, errors: seq![] }
    } else {
        unpublished_walk(entries.drop_last(), limits).with(entries.last(), limits)
    }
}

/// What the scan of the generations of an unpublished entity amounts to.
pub open spec fn unpublished_generation_outcome(
    listing: DirectoryListing<GenerationEntryObservation>,
    maximum: usize,
    limits: StoreLimits,
) -> Result<Option<UnpublishedGenerationFiles>, DurableOpenError> {
    match listing.bounded(maximum) {
        Err(error) => Err(error),
        Ok(entries) => if entries.len() == 0 {
            Ok(None)
        } else {
            let walk = unpublished_walk(entries, limits);
            scan_errors::settled(
                walk.errors + scan_errors::corrupt_if(entries.len() != 1 || walk.first is None),
                walk.first,
            )
        },
    }
}

pub fn scan_unpublished_generation(
    listing: &DirectoryListing<GenerationEntryObservation>,
    maximum: usize,
    limits: StoreLimits,
) -> (result: Result<Option<UnpublishedGenerationFiles>, DurableOpenError>)
    ensures
        result == unpublished_generation_outcome(*listing, maximum, limits),
{
    let entries = match read_entries_bounded(listing, maximum) {
        Ok(entries) => entries,
        Err(error) => return Err(error),
    };
    if entries.len() == 0 {
        return Ok(None);
    }
    let mut errors = PhysicalScanErrors::new();
    let mut generation_one: Option<UnpublishedGenerationFiles> = None;
    let mut i: usize = 0;
    assert(entries@.take(0) =~= seq![]);
    while i < entries.len()
        invariant
            i <= entries@.len(),
            errors@ == unpublished_walk(entries@.take(i as int), limits).errors,
            generation_one == unpublished_walk(entries@.take(i as int), limits).first,
        decreases entries.len() - i,
    {
        let entry: &GenerationEntryObservation = &entries[i];
        let ghost before = unpublished_walk(entries@.take(i as int), limits);
        let ghost errors_before = errors@;
        proof {
            assert(entries@.take(i + 1).drop_last() =~= entries@.take(i as int));
            assert(entries@.take(i + 1).last() == *entry);
        }
        match StorageGeneration::parse_directory_name(entry.name.as_slice()) {
            Err(_) => {
                errors.note(DurableOpenError::DurableStateCorrupt);
            },
            Ok(generation) => match metadata_without_following(entry.metadata) {
                Err(error) => {
                    errors.note(error);
                },
                Ok(metadata) => {
                    errors.record(
                        validate_existing_directory(
                            &metadata,
                            DurableOpenError::DurableStateCorrupt,
                        ),
                    );
                    if metadata.is_directory() {
                        let outcome = scan_unpublished_generation_payload(
                            &entry.payload,
                            metadata.identity,
                            limits,
                        );
                        if let Some(files) = errors.record(outcome) {
                            if generation.get() != 1 {
                                errors.note(DurableOpenError::DurableStateCorrupt);
                            } else {
                                errors.note_corrupt_if(generation_one.is_some());
                                generation_one = Some(files);
                            }
                        }
                    }
                },
            },
        }
        proof {
            assert(errors@ =~= before.with(*entry, limits).errors);
        }
        i = i + 1;
    }
    assert(entries@.take(entries@.len() as int) =~= entries@);
    errors.note_corrupt_if(entries.len() != 1 || generation_one.is_none());
    match errors.finish() {
        Ok(()) => Ok(generation_one),
        Err(error) => Err(error),
    }
}

/// An unpublished entity holds no generation, or exactly the first one.
pub proof fn law_unpublished_generation_is_the_first(
    listing: DirectoryListing<GenerationEntryObservation>,
    maximum: usize,
    limits: StoreLimits,
)
    requires
        unpublished_generation_outcome(listing, maximum, limits) is Ok,
    ensures
        unpublished_generation_outcome(listing, maximum, limits)->Ok_0 is None <==>
            listing.entries@.len() == 0,
        unpublished_generation_outcome(listing, maximum, limits)->Ok_0 is Some ==>
            listing.entries@.len() == 1 && entry_generation(listing.entries@[0]) == Some(1nat),
{
    let entries = listing.entries@;
    if entries.len() > 0 {
        let walk = unpublished_walk(entries, limits);
        let all = walk.errors + scan_errors::corrupt_if(entries.len() != 1 || walk.first is None);
        assert(all.len() == 0);
        assert(entries.drop_last() =~= seq![]);
        assert(unpublished_walk(entries.drop_last(), limits).first is None);
    }
}

} // verus!
