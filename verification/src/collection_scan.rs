//! The physical scan of the reservation and entity collections.

use crate::entity_scan::{EntityKind, EntityObservation};
use crate::idmap;
use crate::idmap::ascending_keys;
use crate::ids;
use crate::ids::{parse_agent_id_name, parse_session_id_name};
use crate::listing;
use crate::listing::{
    entry_has_name, read_entries_bounded, DirectoryListing, AGENTS_DIRECTORY,
    AGENT_RESERVATION_ENTRY_CAP, GENERATION_ENTRY_CAP, RESERVATIONS_ENTRY_CAP,
    ROOT_AGENT_ENTRY_CAP, ROOT_SESSION_ENTRY_CAP, SESSIONS_DIRECTORY,
    SESSION_RESERVATION_ENTRY_CAP,
};
use crate::open_error::DurableOpenError;
use crate::physical;
use crate::physical::{
    metadata_without_following, validate_directory_entry, validate_existing_directory,
    validate_zero_regular_file, CleanupNodeIdentityShape, Lookup, ZeroFileObservation,
};
use crate::scan_errors;
use crate::scan_errors::PhysicalScanErrors;
use std::collections::BTreeMap;
use vstd::prelude::*;

verus! {

/// How many entries recovery accepts in each collection.
#[derive(Clone, Copy, Debug, PartialEq, Eq, Structural)]
pub struct RecoveryCaps {
    pub agent_reservations: usize,
    pub session_reservations: usize,
    pub root_agents: usize,
    pub root_sessions: usize,
    pub generations: usize,
}

impl RecoveryCaps {
    /// The caps of a production store.
    pub fn production() -> (caps: Self)
        ensures
            caps == (RecoveryCaps {
                agent_reservations: AGENT_RESERVATION_ENTRY_CAP,
                session_reservations: SESSION_RESERVATION_ENTRY_CAP,
                root_agents: ROOT_AGENT_ENTRY_CAP,
                root_sessions: ROOT_SESSION_ENTRY_CAP,
                generations: GENERATION_ENTRY_CAP,
            }),
            caps.agent_reservations == 1_000_000 && caps.session_reservations == 1_000_000,
            caps.root_agents == 1_000_000 && caps.root_sessions == 1_000_000,
            caps.generations == 1_000_000,
    {
        RecoveryCaps {
            agent_reservations: AGENT_RESERVATION_ENTRY_CAP,
            session_reservations: SESSION_RESERVATION_ENTRY_CAP,
            root_agents: ROOT_AGENT_ENTRY_CAP,
            root_sessions: ROOT_SESSION_ENTRY_CAP,
            generations: GENERATION_ENTRY_CAP,
        }
    }
}

/// One entry of a reservation collection.
pub struct ReservationEntryObservation {
    pub name: Vec<u8>,
    pub marker: ZeroFileObservation,
}

/// A reservation collection.
pub struct ReservationCollectionObservation {
    pub metadata: Lookup,
    pub listing: DirectoryListing<ReservationEntryObservation>,
}

/// A named node.
pub struct NamedEntryObservation {
    pub name: Vec<u8>,
    pub metadata: Lookup,
}

/// The `reservations` directory with its two collections.
pub struct ReservationsObservation {
    pub listing: DirectoryListing<NamedEntryObservation>,
    pub agents: ReservationCollectionObservation,
    pub sessions: ReservationCollectionObservation,
}

/// One entry of an entity collection.
pub struct EntityEntryObservation {
    pub name: Vec<u8>,
    pub metadata: Lookup,
    pub entity: EntityObservation,
}

/// An entity collection.
pub struct EntityCollectionObservation {
    pub metadata: Lookup,
    pub listing: DirectoryListing<EntityEntryObservation>,
}

/// The nodes behind the reservation markers, by identity.
pub type Reservations = BTreeMap<u128, CleanupNodeIdentityShape>;

/// The identity that a name denotes in a collection of one kind.
pub open spec fn entity_id(kind: EntityKind, name: Seq<u8>) -> Option<u128> {
    match kind {
        EntityKind::Agent => ids::canonical_identity(ids::agent_prefix(), name),
        EntityKind::Session => ids::canonical_identity(ids::session_prefix(), name),
    }
}

fn parse_entity_name(kind: EntityKind, name: &[u8]) -> (parsed: Option<u128>)
    ensures
        parsed == entity_id(kind, name@),
{
    match kind {
        EntityKind::Agent => match parse_agent_id_name(name) {
            Ok(id) => Some(id.value()),
            Err(_) => None,
        },
        EntityKind::Session => match parse_session_id_name(name) {
            Ok(id) => Some(id.value()),
            Err(_) => None,
        },
    }
}

/// The errors of entering a collection, in the order in which they are recorded.
pub open spec fn entering_errors<T>(
    metadata: Lookup,
    listing: DirectoryListing<T>,
    maximum: usize,
) -> Seq<DurableOpenError> {
    match physical::seen(metadata) {
        Err(error) => seq![error],
        Ok(node) => scan_errors::corrupt_if(!node.is_private_directory()) + (
        if node.kind is Directory {
            scan_errors::noted(listing.bounded(maximum))
        } else {
            seq![]
        }),
    }
}

/// The entries of a collection that could be entered; none otherwise.
pub open spec fn entered<T>(metadata: Lookup, listing: DirectoryListing<T>, maximum: usize) -> Seq<
    T,
> {
    match metadata {
        Ok(node) if node.kind is Directory => match listing.bounded(maximum) {
            Ok(entries) => entries,
            Err(_) => seq![],
        },
        _ => seq![],
    }
}

fn enter_collection<'a, T>(
    metadata: Lookup,
    listing: &'a DirectoryListing<T>,
    maximum: usize,
    errors: &mut PhysicalScanErrors,
) -> (entries: Option<&'a Vec<T>>)
    ensures
        final(errors)@ == old(errors)@ + entering_errors(metadata, *listing, maximum),
        match entries {
            Some(list) => list@ == entered(metadata, *listing, maximum),
            None => entered(metadata, *listing, maximum).len() == 0,
        },
{
    let node = match metadata_without_following(metadata) {
        Ok(node) => node,
        Err(error) => {
            errors.note(error);
            return None;
        },
    };
    errors.record(validate_existing_directory(&node, DurableOpenError::DurableStateCorrupt));
    if !node.is_directory() {
        assert(errors@ =~= old(errors)@ + entering_errors(metadata, *listing, maximum));
        return None;
    }
    let entries = errors.record(read_entries_bounded(listing, maximum));
    assert(errors@ =~= old(errors)@ + entering_errors(metadata, *listing, maximum));
    entries
}

/// The reservations of a collection while it is walked.
pub struct ReservationWalk {
    pub reservations: Map<u128, CleanupNodeIdentityShape>,
    pub errors: Seq<DurableOpenError>,
}

impl ReservationWalk {
    pub open spec fn noting(self, error: DurableOpenError) -> Self {
        ReservationWalk { errors: self.errors.push(error), ..self }
    }

    /// Takes in one entry: a canonical name that is new, on a valid empty marker.
    pub open spec fn with(self, entry: ReservationEntryObservation, kind: EntityKind) -> Self {
        match entity_id(kind, entry.name@) {
            None => self.noting(DurableOpenError::DurableStateCorrupt),
            Some(id) => if self.reservations.contains_key(id) {
                self.noting(DurableOpenError::DurableStateCorrupt)
            } else {
                match entry.marker.outcome() {
                    Ok(shape) => ReservationWalk {
                        reservations: self.reservations.insert(id, shape),
                        ..self
                    },
                    Err(error) => self.noting(error),
                }
            },
        }
    }
}

pub open spec fn reservation_walk(
    entries: Seq<ReservationEntryObservation>,
    kind: EntityKind,
) -> ReservationWalk
    decreases entries.len(),
{
    if entries.len() == 0 {
        ReservationWalk { reservations: Map::empty(), errors: seq![] }
    } else {
        reservation_walk(entries.drop_last(), kind).with(entries.last(), kind)
    }
}

/// What the scan of a reservation collection amounts to.
pub open spec fn reservation_scan(
    collection: ReservationCollectionObservation,
    kind: EntityKind,
    maximum: usize,
) -> ReservationWalk {
    let walk = reservation_walk(
        entered(collection.metadata, collection.listing, maximum),
        kind,
    );
    ReservationWalk {
        errors: entering_errors(collection.metadata, collection.listing, maximum) + walk.errors,
        ..walk
    }
}

fn scan_reservations(
    collection: &ReservationCollectionObservation,
    kind: EntityKind,
    maximum: usize,
    errors: &mut PhysicalScanErrors,
) -> (reservations: Reservations)
    ensures
        reservations@ == reservation_scan(*collection, kind, maximum).reservations,
        final(errors)@ == old(errors)@ + reservation_scan(*collection, kind, maximum).errors,
{
    let mut reservations: Reservations = BTreeMap::new();
    let entries = match enter_collection(
        collection.metadata,
        &collection.listing,
        maximum,
        errors,
    ) {
        Some(entries) => entries,
        None => {
            proof {
                assert(entered(collection.metadata, collection.listing, maximum) =~= seq![]);
                assert(errors@ =~= old(errors)@ + reservation_scan(
                    *collection,
                    kind,
                    maximum,
                ).errors);
            }
            return reservations;
        },
    };
    let ghost base = errors@;
    let mut i: usize = 0;
    proof {
        assert(entries@.take(0) =~= seq![]);
        assert(errors@ =~= base + reservation_walk(entries@.take(0), kind).errors);
    }
    while i < entries.len()
        invariant
            i <= entries@.len(),
            reservations@ == reservation_walk(entries@.take(i as int), kind).reservations,
            errors@ == base + reservation_walk(entries@.take(i as int), kind).errors,
        decreases entries.len() - i,
    {
        let entry: &ReservationEntryObservation = &entries[i];
        let ghost before = reservation_walk(entries@.take(i as int), kind);
        proof {
            assert(entries@.take(i + 1).drop_last() =~= entries@.take(i as int));
            assert(entries@.take(i + 1).last() == *entry);
        }
        match parse_entity_name(kind, entry.name.as_slice()) {
            None => {
                errors.note(DurableOpenError::DurableStateCorrupt);
            },
            Some(id) => {
                if reservations.contains_key(&id) {
                    errors.note(DurableOpenError::DurableStateCorrupt);
                } else if let Some(shape) = errors.record(
                    validate_zero_regular_file(&entry.marker),
                ) {
                    reservations.insert(id, shape);
                }
            },
        }
        assert(errors@ =~= base + before.with(*entry, kind).errors);
        i = i + 1;
    }
    proof {
        assert(entries@.take(entries@.len() as int) =~= entries@);
        assert(errors@ =~= old(errors)@ + reservation_scan(*collection, kind, maximum).errors);
    }
    reservations
}

pub fn scan_agent_reservations(
    collection: &ReservationCollectionObservation,
    maximum: usize,
    errors: &mut PhysicalScanErrors,
) -> (reservations: Reservations)
    ensures
        reservations@ == reservation_scan(*collection, EntityKind::Agent, maximum).reservations,
        final(errors)@ == old(errors)@ + reservation_scan(
            *collection,
            EntityKind::Agent,
            maximum,
        ).errors,
{
    scan_reservations(collection, EntityKind::Agent, maximum, errors)
}

pub fn scan_session_reservations(
    collection: &ReservationCollectionObservation,
    maximum: usize,
    errors: &mut PhysicalScanErrors,
) -> (reservations: Reservations)
    ensures
        reservations@ == reservation_scan(*collection, EntityKind::Session, maximum).reservations,
        final(errors)@ == old(errors)@ + reservation_scan(
            *collection,
            EntityKind::Session,
            maximum,
        ).errors,
{
    scan_reservations(collection, EntityKind::Session, maximum, errors)
}

/// The errors of the entries of the `reservations` directory.
pub open spec fn reservations_entry_errors(entries: Seq<NamedEntryObservation>) -> Seq<
    DurableOpenError,
>
    decreases entries.len(),
{
    if entries.len() == 0 {
        seq![]
    } else {
        let entry = entries.last();
        reservations_entry_errors(entries.drop_last()) + (if entry.name@ == listing::name_bytes(
            AGENTS_DIRECTORY,
        ) || entry.name@ == listing::name_bytes(SESSIONS_DIRECTORY) {
            scan_errors::noted(
                physical::directory_entry(
                    entry.metadata,
                    DurableOpenError::DurableStateCorrupt,
                ),
            )
        } else {
            seq![DurableOpenError::DurableStateCorrupt]
        })
    }
}

pub open spec fn lists_name(entries: Seq<NamedEntryObservation>, name: &str) -> bool {
    exists|i: int|
        0 <= i < entries.len() && (#[trigger] entries[i]).name@ == listing::name_bytes(name)
}

/// The errors of the `reservations` directory itself, in the order in which they are recorded.
pub open spec fn reservations_directory_errors(
    listing: DirectoryListing<NamedEntryObservation>,
) -> Seq<DurableOpenError> {
    let bounded = listing.bounded(RESERVATIONS_ENTRY_CAP);
    let entries = if bounded is Ok {
        bounded->Ok_0
    } else {
        seq![]
    };
    scan_errors::noted(bounded) + reservations_entry_errors(entries) + scan_errors::corrupt_if(
        !(lists_name(entries, AGENTS_DIRECTORY) && lists_name(entries, SESSIONS_DIRECTORY)),
    )
}

fn check_reservations_directory(
    listing: &DirectoryListing<NamedEntryObservation>,
    errors: &mut PhysicalScanErrors,
)
    ensures
        final(errors)@ == old(errors)@ + reservations_directory_errors(*listing),
{
    let nothing: Vec<NamedEntryObservation> = Vec::new();
    let ghost bounded = listing.bounded(RESERVATIONS_ENTRY_CAP);
    let entries = match errors.record(read_entries_bounded(listing, RESERVATIONS_ENTRY_CAP)) {
        Some(entries) => entries,
        None => &nothing,
    };
    let ghost base = old(errors)@ + scan_errors::noted(bounded);
    assert(errors@ =~= base);
    let mut has_agents = false;
    let mut has_sessions = false;
    let mut i: usize = 0;
    proof {
        assert(entries@.take(0) =~= seq![]);
        assert(errors@ =~= base + reservations_entry_errors(entries@.take(0)));
    }
    while i < entries.len()
        invariant
            i <= entries@.len(),
            errors@ == base + reservations_entry_errors(entries@.take(i as int)),
            has_agents == lists_name(entries@.take(i as int), AGENTS_DIRECTORY),
            has_sessions == lists_name(entries@.take(i as int), SESSIONS_DIRECTORY),
        decreases entries.len() - i,
    {
        let entry: &NamedEntryObservation = &entries[i];
        let ghost before = entries@.take(i as int);
        let ghost after = entries@.take(i + 1);
        let ghost errors_before = errors@;
        proof {
            assert(after.drop_last() =~= before);
            assert(after.last() == *entry);
            lemma_lists_name_extends(before, *entry, AGENTS_DIRECTORY);
            lemma_lists_name_extends(before, *entry, SESSIONS_DIRECTORY);
            assert(after =~= before.push(*entry));
        }
        let is_agents = entry_has_name(entry.name.as_slice(), AGENTS_DIRECTORY);
        let is_sessions = entry_has_name(entry.name.as_slice(), SESSIONS_DIRECTORY);
        if is_agents || is_sessions {
            errors.record(
                validate_directory_entry(entry.metadata, DurableOpenError::DurableStateCorrupt),
            );
        } else {
            errors.note(DurableOpenError::DurableStateCorrupt);
        }
        has_agents = has_agents || is_agents;
        has_sessions = has_sessions || is_sessions;
        assert(errors@ =~= base + reservations_entry_errors(after));
        i = i + 1;
    }
    assert(entries@.take(entries@.len() as int) =~= entries@);
    errors.note_corrupt_if(!(has_agents && has_sessions));
    proof {
        assert(bounded is Err ==> entries@ =~= seq![]);
        assert(errors@ =~= old(errors)@ + reservations_directory_errors(*listing));
    }
}

proof fn lemma_lists_name_extends(
    entries: Seq<NamedEntryObservation>,
    entry: NamedEntryObservation,
    name: &str,
)
    ensures
        lists_name(entries.push(entry), name) <==> lists_name(entries, name) || entry.name@
            == listing::name_bytes(name),
{
    let pushed = entries.push(entry);
    assert(pushed.last() == entry);
    if lists_name(entries, name) {
        let k = choose|k: int|
            0 <= k < entries.len() && (#[trigger] entries[k]).name@ == listing::name_bytes(name);
        assert(pushed[k] == entries[k]);
    }
    if lists_name(pushed, name) {
        let k = choose|k: int|
            0 <= k < pushed.len() && (#[trigger] pushed[k]).name@ == listing::name_bytes(name);
        if k < entries.len() {
            assert(entries[k] == pushed[k]);
        }
    }
}

/// The errors of both reservation collections and of the directory above them.
pub open spec fn all_reservation_errors(
    observation: ReservationsObservation,
    caps: RecoveryCaps,
) -> Seq<DurableOpenError> {
    reservations_directory_errors(observation.listing) + reservation_scan(
        observation.agents,
        EntityKind::Agent,
        caps.agent_reservations,
    ).errors + reservation_scan(
        observation.sessions,
        EntityKind::Session,
        caps.session_reservations,
    ).errors
}

pub fn recover_marked_reservations(
    observation: &ReservationsObservation,
    caps: RecoveryCaps,
    errors: &mut PhysicalScanErrors,
) -> (reservations: (Reservations, Reservations))
    ensures
        reservations.0@ == reservation_scan(
            observation.agents,
            EntityKind::Agent,
            caps.agent_reservations,
        ).reservations,
        reservations.1@ == reservation_scan(
            observation.sessions,
            EntityKind::Session,
            caps.session_reservations,
        ).reservations,
        final(errors)@ == old(errors)@ + all_reservation_errors(*observation, caps),
{
    check_reservations_directory(&observation.listing, errors);
    let agents = scan_agent_reservations(&observation.agents, caps.agent_reservations, errors);
    let sessions = scan_session_reservations(
        &observation.sessions,
        caps.session_reservations,
        errors,
    );
    assert(errors@ =~= old(errors)@ + all_reservation_errors(*observation, caps));
    (agents, sessions)
}

/// The places of the entities in a listing while it is walked.
pub struct EntityPlaces {
    pub places: Map<u128, int>,
    pub errors: Seq<DurableOpenError>,
}

/// Where each identity is listed; a name that is not canonical, or comes again, is an error.
pub open spec fn entity_places(entries: Seq<EntityEntryObservation>, kind: EntityKind) -> EntityPlaces
    decreases entries.len(),
{
    if entries.len() == 0 {
        EntityPlaces { places: Map::empty(), errors: seq![] }
    } else {
        let before = entity_places(entries.drop_last(), kind);
        match entity_id(kind, entries.last().name@) {
            None => EntityPlaces {
                errors: before.errors.push(DurableOpenError::DurableStateCorrupt),
                ..before
            },
            Some(id) => EntityPlaces {
                places: before.places.insert(id, entries.len() - 1),
                errors: before.errors + scan_errors::corrupt_if(before.places.contains_key(id)),
            },
        }
    }
}

/// The errors of one listed entity: its node, and a missing reservation.
pub open spec fn listed_entity_errors(
    metadata: Lookup,
    reserved: bool,
) -> Seq<DurableOpenError> {
    match physical::seen(metadata) {
        Err(error) => seq![error],
        Ok(node) => scan_errors::corrupt_if(!node.is_private_directory())
            + scan_errors::corrupt_if(!reserved),
    }
}

pub open spec fn is_directory_node(metadata: Lookup) -> bool {
    metadata matches Ok(node) && node.kind is Directory
}

pub open spec fn listed_errors(
    entries: Seq<EntityEntryObservation>,
    places: Map<u128, int>,
    ids: Seq<u128>,
    reservations: Map<u128, CleanupNodeIdentityShape>,
) -> Seq<DurableOpenError>
    decreases ids.len(),
{
    if ids.len() == 0 {
        seq![]
    } else {
        listed_errors(entries, places, ids.drop_last(), reservations) + listed_entity_errors(
            entries[places[ids.last()]].metadata,
            reservations.contains_key(ids.last()),
        )
    }
}

/// The identities whose entries are directories.
pub open spec fn enterable_ids(
    entries: Seq<EntityEntryObservation>,
    places: Map<u128, int>,
    ids: Seq<u128>,
) -> Seq<u128>
    decreases ids.len(),
{
    if ids.len() == 0 {
        seq![]
    } else {
        let before = enterable_ids(entries, places, ids.drop_last());
        if is_directory_node(entries[places[ids.last()]].metadata) {
            before.push(ids.last())
        } else {
            before
        }
    }
}

/// The scan of an entity collection: the enterable entities in ascending order, and the errors.
pub struct EntityCollectionScan {
    pub entries: Seq<EntityEntryObservation>,
    pub places: Map<u128, int>,
    pub ids: Seq<u128>,
    pub errors: Seq<DurableOpenError>,
}

pub open spec fn collection_scan(
    collection: EntityCollectionObservation,
    kind: EntityKind,
    reservations: Map<u128, CleanupNodeIdentityShape>,
    maximum: usize,
) -> EntityCollectionScan {
    let entries = entered(collection.metadata, collection.listing, maximum);
    let placed = entity_places(entries, kind);
    let ids = idmap::ascending_ids(placed.places.dom());
    EntityCollectionScan {
        entries,
        places: placed.places,
        ids: enterable_ids(entries, placed.places, ids),
        errors: entering_errors(collection.metadata, collection.listing, maximum) + placed.errors
            + listed_errors(entries, placed.places, ids, reservations),
    }
}

/// One enterable entity: its identity and its place in the listing.
#[derive(Clone, Copy, PartialEq, Eq, Structural)]
pub struct EntityPlace {
    pub id: u128,
    pub index: usize,
}

pub open spec fn place_ids(places: Seq<EntityPlace>) -> Seq<u128> {
    places.map_values(|place: EntityPlace| place.id)
}

/// The enterable entities of a collection, as the model has them.
pub open spec fn are_places(places: Seq<EntityPlace>, scan: EntityCollectionScan) -> bool {
    &&& place_ids(places) == scan.ids
    &&& forall|i: int|
        0 <= i < places.len() ==> (#[trigger] places[i]).index < scan.entries.len()
            && scan.places[places[i].id] == places[i].index
}

spec fn places_agree(
    exec: Map<u128, usize>,
    model: Map<u128, int>,
    count: int,
) -> bool {
    &&& exec.dom() == model.dom()
    &&& forall|id: u128| #[trigger]
        exec.contains_key(id) ==> exec[id] == model[id] && exec[id] < count
}

fn place_entities(
    entries: &Vec<EntityEntryObservation>,
    kind: EntityKind,
    errors: &mut PhysicalScanErrors,
) -> (places: BTreeMap<u128, usize>)
    ensures
        places_agree(places@, entity_places(entries@, kind).places, entries@.len() as int),
        final(errors)@ == old(errors)@ + entity_places(entries@, kind).errors,
{
    let mut places: BTreeMap<u128, usize> = BTreeMap::new();
    let mut i: usize = 0;
    proof {
        assert(entries@.take(0) =~= seq![]);
        assert(places@.dom() =~= entity_places(entries@.take(0), kind).places.dom());
        assert(errors@ =~= old(errors)@ + entity_places(entries@.take(0), kind).errors);
    }
    while i < entries.len()
        invariant
            i <= entries@.len(),
            places_agree(
                places@,
                entity_places(entries@.take(i as int), kind).places,
                i as int,
            ),
            errors@ == old(errors)@ + entity_places(entries@.take(i as int), kind).errors,
        decreases entries.len() - i,
    {
        let entry: &EntityEntryObservation = &entries[i];
        let ghost before = entity_places(entries@.take(i as int), kind);
        let ghost after = entity_places(entries@.take(i + 1), kind);
        let ghost places_before = places@;
        proof {
            assert(entries@.take(i + 1).drop_last() =~= entries@.take(i as int));
            assert(entries@.take(i + 1).last() == *entry);
        }
        match parse_entity_name(kind, entry.name.as_slice()) {
            None => {
                errors.note(DurableOpenError::DurableStateCorrupt);
            },
            Some(id) => {
                let replaced = places.insert(id, i);
                errors.note_corrupt_if(replaced.is_some());
                assert(places@.dom() =~= after.places.dom());
            },
        }
        proof {
            assert(errors@ =~= old(errors)@ + after.errors);
            assert forall|id: u128| #[trigger] places@.contains_key(id) implies places@[id]
                == after.places[id] && places@[id] < i + 1 by {
                if places_before.contains_key(id) {
                }
            }
        }
        i = i + 1;
    }
    assert(entries@.take(entries@.len() as int) =~= entries@);
    places
}

fn keep_enterable(
    entries: &Vec<EntityEntryObservation>,
    places: &BTreeMap<u128, usize>,
    reservations: &Reservations,
    errors: &mut PhysicalScanErrors,
    Ghost(model): Ghost<Map<u128, int>>,
) -> (kept: Vec<EntityPlace>)
    requires
        places_agree(places@, model, entries@.len() as int),
    ensures
        place_ids(kept@) == enterable_ids(entries@, model, idmap::ascending_ids(model.dom())),
        forall|i: int|
            0 <= i < kept@.len() ==> (#[trigger] kept@[i]).index < entries@.len()
                && model[kept@[i].id] == kept@[i].index,
        final(errors)@ == old(errors)@ + listed_errors(
            entries@,
            model,
            idmap::ascending_ids(model.dom()),
            reservations@,
        ),
{
    let ids = ascending_keys(places);
    let mut kept: Vec<EntityPlace> = Vec::new();
    let mut i: usize = 0;
    proof {
        assert(ids@.take(0) =~= seq![]);
        assert(place_ids(kept@) =~= seq![]);
        assert(errors@ =~= old(errors)@ + listed_errors(
            entries@,
            model,
            ids@.take(0),
            reservations@,
        ));
    }
    while i < ids.len()
        invariant
            i <= ids@.len(),
            ids@.to_set() == places@.dom(),
            places_agree(places@, model, entries@.len() as int),
            place_ids(kept@) == enterable_ids(entries@, model, ids@.take(i as int)),
            forall|k: int|
                0 <= k < kept@.len() ==> (#[trigger] kept@[k]).index < entries@.len()
                    && model[kept@[k].id] == kept@[k].index,
            errors@ == old(errors)@ + listed_errors(
                entries@,
                model,
                ids@.take(i as int),
                reservations@,
            ),
        decreases ids.len() - i,
    {
        let id: u128 = ids[i];
        let ghost errors_before = errors@;
        let ghost kept_before = kept@;
        proof {
            assert(ids@.to_set().contains(id));
            assert(places@.contains_key(id));
            assert(ids@.take(i + 1).drop_last() =~= ids@.take(i as int));
        }
        if let Some(place) = places.get(&id) {
            let index: usize = *place;
            let entry: &EntityEntryObservation = &entries[index];
            match metadata_without_following(entry.metadata) {
                Err(error) => {
                    errors.note(error);
                },
                Ok(node) => {
                    errors.record(
                        validate_existing_directory(&node, DurableOpenError::DurableStateCorrupt),
                    );
                    errors.note_corrupt_if(!reservations.contains_key(&id));
                    if node.is_directory() {
                        kept.push(EntityPlace { id, index });
                        assert(place_ids(kept@) =~= place_ids(kept_before).push(id));
                    }
                },
            }
            assert(errors@ =~= errors_before + listed_entity_errors(
                entry.metadata,
                reservations@.contains_key(id),
            ));
        }
        assert(errors@ =~= old(errors)@ + listed_errors(
            entries@,
            model,
            ids@.take(i + 1),
            reservations@,
        ));
        i = i + 1;
    }
    assert(ids@.take(ids@.len() as int) =~= ids@);
    kept
}

fn scan_entities(
    collection: &EntityCollectionObservation,
    kind: EntityKind,
    reservations: &Reservations,
    maximum: usize,
    errors: &mut PhysicalScanErrors,
) -> (places: Vec<EntityPlace>)
    ensures
        are_places(places@, collection_scan(*collection, kind, reservations@, maximum)),
        places@.len() > 0 ==> collection_scan(*collection, kind, reservations@, maximum).entries
            == collection.listing.entries@,
        final(errors)@ == old(errors)@ + collection_scan(
            *collection,
            kind,
            reservations@,
            maximum,
        ).errors,
{
    let ghost scan = collection_scan(*collection, kind, reservations@, maximum);
    let nothing: Vec<EntityEntryObservation> = Vec::new();
    let entries = match enter_collection(
        collection.metadata,
        &collection.listing,
        maximum,
        errors,
    ) {
        Some(entries) => entries,
        None => &nothing,
    };
    assert(entries@ =~= scan.entries);
    let places = place_entities(entries, kind, errors);
    let kept = keep_enterable(
        entries,
        &places,
        reservations,
        errors,
        Ghost(entity_places(entries@, kind).places),
    );
    proof {
        assert(errors@ =~= old(errors)@ + scan.errors);
        if kept@.len() > 0 {
            assert(kept@[0].index < scan.entries.len());
        }
    }
    kept
}

pub fn scan_agent_entities(
    collection: &EntityCollectionObservation,
    reservations: &Reservations,
    maximum: usize,
    errors: &mut PhysicalScanErrors,
) -> (places: Vec<EntityPlace>)
    ensures
        are_places(
            places@,
            collection_scan(*collection, EntityKind::Agent, reservations@, maximum),
        ),
        places@.len() > 0 ==> collection_scan(
            *collection,
            EntityKind::Agent,
            reservations@,
            maximum,
        ).entries == collection.listing.entries@,
        final(errors)@ == old(errors)@ + collection_scan(
            *collection,
            EntityKind::Agent,
            reservations@,
            maximum,
        ).errors,
{
    scan_entities(collection, EntityKind::Agent, reservations, maximum, errors)
}

pub fn scan_session_entities(
    collection: &EntityCollectionObservation,
    reservations: &Reservations,
    maximum: usize,
    errors: &mut PhysicalScanErrors,
) -> (places: Vec<EntityPlace>)
    ensures
        are_places(
            places@,
            collection_scan(*collection, EntityKind::Session, reservations@, maximum),
        ),
        places@.len() > 0 ==> collection_scan(
            *collection,
            EntityKind::Session,
            reservations@,
            maximum,
        ).entries == collection.listing.entries@,
        final(errors)@ == old(errors)@ + collection_scan(
            *collection,
            EntityKind::Session,
            reservations@,
            maximum,
        ).errors,
{
    scan_entities(collection, EntityKind::Session, reservations, maximum, errors)
}

} // verus!
