//! The physical scan of a whole marked store.
//!
//! Both entity collections are scanned to the end, with every generation and payload cap, before any
//! candidate is interpreted: a later size observation is never masked by an earlier finding.

use crate::collection_scan;
use crate::collection_scan::{
    recover_marked_reservations, scan_agent_entities, scan_session_entities,
    EntityCollectionObservation, EntityEntryObservation, EntityPlace, RecoveryCaps, Reservations,
    ReservationsObservation,
};
use crate::entity_scan;
use crate::entity_scan::{
    scan_agent_entity, scan_session_entity, EntityKind, EntityScanModel, ScannedEntity,
};
use crate::listing;
use crate::listing::{
    entry_has_name, AGENTS_DIRECTORY, FORMAT_MARKER, LOCK_FILE, RESERVATIONS_DIRECTORY,
    SESSIONS_DIRECTORY,
};
use crate::open_error::DurableOpenError;
use crate::physical;
use crate::physical::{
    validate_directory_entry, validate_regular_entry_path, validate_zero_regular_file,
    CleanupNodeIdentityShape, Lookup, StoreLimits, ZeroFileObservation,
};
use crate::scan_errors;
use crate::scan_errors::PhysicalScanErrors;
use vstd::prelude::*;

verus! {

/// One entry of the store root. The marker observation counts only for the format marker.
pub struct RootEntryObservation {
    pub name: Vec<u8>,
    pub metadata: Lookup,
    pub marker: ZeroFileObservation,
}

/// The three directories below a marked root.
pub struct MarkedRootObservation {
    pub reservations: ReservationsObservation,
    pub agents: EntityCollectionObservation,
    pub sessions: EntityCollectionObservation,
}

/// One scanned entity.
pub struct EntityScan {
    pub id: u128,
    pub entity: ScannedEntity,
}

/// The completed physical scan of a marked root.
pub struct MarkedRootScan {
    pub agent_reservations: Reservations,
    pub session_reservations: Reservations,
    pub agents: Vec<EntityScan>,
    pub sessions: Vec<EntityScan>,
}

/// A completed scan, with its lists as sequences and maps.
pub struct MarkedRootModel {
    pub agent_reservations: Map<u128, CleanupNodeIdentityShape>,
    pub session_reservations: Map<u128, CleanupNodeIdentityShape>,
    pub agents: Seq<(u128, EntityScanModel)>,
    pub sessions: Seq<(u128, EntityScanModel)>,
}

pub open spec fn entity_models(scans: Seq<EntityScan>) -> Seq<(u128, EntityScanModel)> {
    scans.map_values(|scan: EntityScan| (scan.id, scan.entity@))
}

impl View for MarkedRootScan {
    type V = MarkedRootModel;

    open spec fn view(&self) -> MarkedRootModel {
        MarkedRootModel {
            agent_reservations: self.agent_reservations@,
            session_reservations: self.session_reservations@,
            agents: entity_models(self.agents@),
            sessions: entity_models(self.sessions@),
        }
    }
}

/// What one root entry amounts to.
pub open spec fn root_entry_outcome(entry: RootEntryObservation) -> Result<(), DurableOpenError> {
    let corrupt = DurableOpenError::DurableStateCorrupt;
    if entry.name@ == listing::name_bytes(LOCK_FILE) {
        physical::regular_entry(entry.metadata, corrupt)
    } else if entry.name@ == listing::name_bytes(FORMAT_MARKER) {
        match physical::regular_entry(entry.metadata, corrupt) {
            Err(error) => Err(error),
            Ok(()) => match entry.marker.outcome() {
                Err(error) => Err(error),
                Ok(_) => Ok(()),
            },
        }
    } else if entry.name@ == listing::name_bytes(RESERVATIONS_DIRECTORY) || entry.name@
        == listing::name_bytes(AGENTS_DIRECTORY) || entry.name@ == listing::name_bytes(
        SESSIONS_DIRECTORY,
    ) {
        physical::directory_entry(entry.metadata, corrupt)
    } else {
        Err(corrupt)
    }
}

/// The first root entry that fails decides.
pub open spec fn root_entries_outcome(entries: Seq<RootEntryObservation>) -> Result<
    (),
    DurableOpenError,
>
    decreases entries.len(),
{
    if entries.len() == 0 {
        Ok(())
    } else {
        match root_entries_outcome(entries.drop_last()) {
            Err(error) => Err(error),
            Ok(()) => root_entry_outcome(entries.last()),
        }
    }
}

pub open spec fn root_lists(entries: Seq<RootEntryObservation>, name: &str) -> bool {
    exists|i: int|
        0 <= i < entries.len() && (#[trigger] entries[i]).name@ == listing::name_bytes(name)
}

/// Whether the root holds all five fixed names.
pub open spec fn root_is_complete(entries: Seq<RootEntryObservation>) -> bool {
    &&& root_lists(entries, LOCK_FILE)
    &&& root_lists(entries, FORMAT_MARKER)
    &&& root_lists(entries, RESERVATIONS_DIRECTORY)
    &&& root_lists(entries, AGENTS_DIRECTORY)
    &&& root_lists(entries, SESSIONS_DIRECTORY)
}

fn validate_root_entry(entry: &RootEntryObservation) -> (result: Result<(), DurableOpenError>)
    ensures
        result == root_entry_outcome(*entry),
{
    let corrupt = DurableOpenError::DurableStateCorrupt;
    let name = entry.name.as_slice();
    if entry_has_name(name, LOCK_FILE) {
        validate_regular_entry_path(entry.metadata, corrupt)
    } else if entry_has_name(name, FORMAT_MARKER) {
        match validate_regular_entry_path(entry.metadata, corrupt) {
            Err(error) => Err(error),
            Ok(()) => match validate_zero_regular_file(&entry.marker) {
                Err(error) => Err(error),
                Ok(_) => Ok(()),
            },
        }
    } else if entry_has_name(name, RESERVATIONS_DIRECTORY) || entry_has_name(
        name,
        AGENTS_DIRECTORY,
    ) || entry_has_name(name, SESSIONS_DIRECTORY) {
        validate_directory_entry(entry.metadata, corrupt)
    } else {
        Err(corrupt)
    }
}

/// Whether some root entry carries a name.
pub fn root_contains(entries: &Vec<RootEntryObservation>, name: &str) -> (result: bool)
    ensures
        result == root_lists(entries@, name),
{
    let mut i: usize = 0;
    while i < entries.len()
        invariant
            i <= entries@.len(),
            forall|k: int|
                0 <= k < i ==> (#[trigger] entries@[k]).name@ != listing::name_bytes(name),
        decreases entries.len() - i,
    {
        if entry_has_name(entries[i].name.as_slice(), name) {
            return true;
        }
        i = i + 1;
    }
    false
}

/// Accepts a root that holds exactly the five fixed entries, each of its own kind.
pub fn validate_marked_root_entries(entries: &Vec<RootEntryObservation>) -> (result: Result<
    (),
    DurableOpenError,
>)
    ensures
        result == match root_entries_outcome(entries@) {
            Err(error) => Err(error),
            Ok(()) => physical::checked(
                root_is_complete(entries@),
                DurableOpenError::DurableStateCorrupt,
            ),
        },
{
    let mut i: usize = 0;
    assert(entries@.take(0) =~= seq![]);
    while i < entries.len()
        invariant
            i <= entries@.len(),
            root_entries_outcome(entries@.take(i as int)) is Ok,
        decreases entries.len() - i,
    {
        assert(entries@.take(i + 1).drop_last() =~= entries@.take(i as int));
        match validate_root_entry(&entries[i]) {
            Err(error) => {
                proof {
                    lemma_failure_persists(entries@, i + 1);
                }
                return Err(error);
            },
            Ok(()) => {},
        }
        i = i + 1;
    }
    assert(entries@.take(entries@.len() as int) =~= entries@);
    let complete = root_contains(entries, LOCK_FILE) && root_contains(entries, FORMAT_MARKER)
        && root_contains(entries, RESERVATIONS_DIRECTORY) && root_contains(
        entries,
        AGENTS_DIRECTORY,
    ) && root_contains(entries, SESSIONS_DIRECTORY);
    if complete {
        Ok(())
    } else {
        Err(DurableOpenError::DurableStateCorrupt)
    }
}

proof fn lemma_failure_persists(entries: Seq<RootEntryObservation>, n: int)
    requires
        0 <= n <= entries.len(),
        root_entries_outcome(entries.take(n)) is Err,
    ensures
        root_entries_outcome(entries) == root_entries_outcome(entries.take(n)),
    decreases entries.len(),
{
    if n == entries.len() {
        assert(entries.take(n) =~= entries);
    } else {
        let front = entries.drop_last();
        assert(front.take(n) =~= entries.take(n));
        lemma_failure_persists(front, n);
    }
}

/// The outcome of the entity with a given identity.
pub open spec fn scan_of(
    entries: Seq<EntityEntryObservation>,
    places: Map<u128, int>,
    id: u128,
    kind: EntityKind,
    caps: RecoveryCaps,
    limits: StoreLimits,
) -> Result<EntityScanModel, DurableOpenError> {
    entity_scan::entity_outcome(entries[places[id]].entity, kind, caps.generations, limits)
}

/// The errors of the entity scans, in ascending order of identity.
pub open spec fn entity_scan_errors(
    entries: Seq<EntityEntryObservation>,
    places: Map<u128, int>,
    ids: Seq<u128>,
    kind: EntityKind,
    caps: RecoveryCaps,
    limits: StoreLimits,
) -> Seq<DurableOpenError>
    decreases ids.len(),
{
    if ids.len() == 0 {
        seq![]
    } else {
        entity_scan_errors(entries, places, ids.drop_last(), kind, caps, limits)
            + scan_errors::noted(scan_of(entries, places, ids.last(), kind, caps, limits))
    }
}

/// The entities whose scan succeeded, in ascending order of identity.
pub open spec fn entity_scans(
    entries: Seq<EntityEntryObservation>,
    places: Map<u128, int>,
    ids: Seq<u128>,
    kind: EntityKind,
    caps: RecoveryCaps,
    limits: StoreLimits,
) -> Seq<(u128, EntityScanModel)>
    decreases ids.len(),
{
    if ids.len() == 0 {
        seq![]
    } else {
        let before = entity_scans(entries, places, ids.drop_last(), kind, caps, limits);
        match scan_of(entries, places, ids.last(), kind, caps, limits) {
            Ok(scan) => before.push((ids.last(), scan)),
            Err(_) => before,
        }
    }
}

fn scan_places(
    entries: &Vec<EntityEntryObservation>,
    places: &Vec<EntityPlace>,
    kind: EntityKind,
    caps: RecoveryCaps,
    limits: StoreLimits,
    errors: &mut PhysicalScanErrors,
    Ghost(model): Ghost<Map<u128, int>>,
) -> (scans: Vec<EntityScan>)
    requires
        forall|i: int|
            0 <= i < places@.len() ==> (#[trigger] places@[i]).index < entries@.len()
                && model[places@[i].id] == places@[i].index,
    ensures
        entity_models(scans@) == entity_scans(
            entries@,
            model,
            collection_scan::place_ids(places@),
            kind,
            caps,
            limits,
        ),
        final(errors)@ == old(errors)@ + entity_scan_errors(
            entries@,
            model,
            collection_scan::place_ids(places@),
            kind,
            caps,
            limits,
        ),
{
    let ghost ids = collection_scan::place_ids(places@);
    let mut scans: Vec<EntityScan> = Vec::new();
    let mut i: usize = 0;
    proof {
        assert(ids.take(0) =~= seq![]);
        assert(entity_models(scans@) =~= seq![]);
        assert(errors@ =~= old(errors)@ + entity_scan_errors(
            entries@,
            model,
            ids.take(0),
            kind,
            caps,
            limits,
        ));
    }
    while i < places.len()
        invariant
            i <= places@.len(),
            ids == collection_scan::place_ids(places@),
            forall|k: int|
                0 <= k < places@.len() ==> (#[trigger] places@[k]).index < entries@.len()
                    && model[places@[k].id] == places@[k].index,
            entity_models(scans@) == entity_scans(
                entries@,
                model,
                ids.take(i as int),
                kind,
                caps,
                limits,
            ),
            errors@ == old(errors)@ + entity_scan_errors(
                entries@,
                model,
                ids.take(i as int),
                kind,
                caps,
                limits,
            ),
        decreases places.len() - i,
    {
        let place: EntityPlace = places[i];
        let observation = &entries[place.index].entity;
        let ghost scans_before = scans@;
        proof {
            assert(ids.take(i + 1).drop_last() =~= ids.take(i as int));
            assert(ids.take(i + 1).last() == place.id);
        }
        let outcome = match kind {
            EntityKind::Agent => scan_agent_entity(observation, caps.generations, limits),
            EntityKind::Session => scan_session_entity(observation, caps.generations, limits),
        };
        if let Some(entity) = errors.record(outcome) {
            scans.push(EntityScan { id: place.id, entity });
            assert(entity_models(scans@) =~= entity_models(scans_before).push(
                (place.id, entity@),
            ));
        }
        assert(errors@ =~= old(errors)@ + entity_scan_errors(
            entries@,
            model,
            ids.take(i + 1),
            kind,
            caps,
            limits,
        ));
        i = i + 1;
    }
    assert(ids.take(ids.len() as int) =~= ids);
    scans
}

/// Whether a scanned entity asks for a cleanup.
pub open spec fn is_candidate(entity: EntityScanModel) -> bool {
    match entity {
        EntityScanModel::Unpublished(_) => true,
        EntityScanModel::Published { markerless, .. } => markerless is Some,
    }
}

pub open spec fn candidate_count(entities: Seq<(u128, EntityScanModel)>) -> nat
    decreases entities.len(),
{
    if entities.len() == 0 {
        0
    } else {
        candidate_count(entities.drop_last()) + if is_candidate(entities.last().1) {
            1nat
        } else {
            0nat
        }
    }
}

fn has_candidate(entity: &ScannedEntity) -> (result: bool)
    ensures
        result == is_candidate(entity@),
{
    match entity {
        ScannedEntity::Unpublished(_) => true,
        ScannedEntity::Published(scan) => scan.markerless.is_some(),
    }
}

fn count_candidates(scans: &Vec<EntityScan>) -> (count: usize)
    ensures
        count == candidate_count(entity_models(scans@)),
        count <= scans@.len(),
{
    let mut count: usize = 0;
    let mut i: usize = 0;
    assert(entity_models(scans@).take(0) =~= seq![]);
    while i < scans.len()
        invariant
            i <= scans@.len(),
            count <= i,
            count == candidate_count(entity_models(scans@).take(i as int)),
        decreases scans.len() - i,
    {
        proof {
            let models = entity_models(scans@);
            assert(models.take(i + 1).drop_last() =~= models.take(i as int));
            assert(models.take(i + 1).last() == models[i as int]);
        }
        if has_candidate(&scans[i].entity) {
            count = count + 1;
        }
        i = i + 1;
    }
    assert(entity_models(scans@).take(scans@.len() as int) =~= entity_models(scans@));
    count
}

/// How many scanned entities ask for a cleanup.
pub fn physical_recovery_candidate_count(
    agents: &Vec<EntityScan>,
    sessions: &Vec<EntityScan>,
) -> (count: u128)
    ensures
        count == candidate_count(entity_models(agents@)) + candidate_count(
            entity_models(sessions@),
        ),
{
    count_candidates(agents) as u128 + count_candidates(sessions) as u128
}

/// The errors of the whole physical scan, in the order in which they are recorded, and what it found.
pub open spec fn root_scan(
    observation: MarkedRootObservation,
    caps: RecoveryCaps,
    limits: StoreLimits,
) -> (Seq<DurableOpenError>, MarkedRootModel) {
    let agent_reservations = collection_scan::reservation_scan(
        observation.reservations.agents,
        EntityKind::Agent,
        caps.agent_reservations,
    ).reservations;
    let session_reservations = collection_scan::reservation_scan(
        observation.reservations.sessions,
        EntityKind::Session,
        caps.session_reservations,
    ).reservations;
    let agents = collection_scan::collection_scan(
        observation.agents,
        EntityKind::Agent,
        agent_reservations,
        caps.root_agents,
    );
    let sessions = collection_scan::collection_scan(
        observation.sessions,
        EntityKind::Session,
        session_reservations,
        caps.root_sessions,
    );
    let errors = collection_scan::all_reservation_errors(observation.reservations, caps)
        + agents.errors + sessions.errors + entity_scan_errors(
        agents.entries,
        agents.places,
        agents.ids,
        EntityKind::Agent,
        caps,
        limits,
    ) + entity_scan_errors(
        sessions.entries,
        sessions.places,
        sessions.ids,
        EntityKind::Session,
        caps,
        limits,
    );
    let model = MarkedRootModel {
        agent_reservations,
        session_reservations,
        agents: entity_scans(
            agents.entries,
            agents.places,
            agents.ids,
            EntityKind::Agent,
            caps,
            limits,
        ),
        sessions: entity_scans(
            sessions.entries,
            sessions.places,
            sessions.ids,
            EntityKind::Session,
            caps,
            limits,
        ),
    };
    (errors, model)
}

/// What the physical scan of a marked root amounts to. At most one entity may ask for a cleanup.
pub open spec fn marked_root_outcome(
    entries: Seq<RootEntryObservation>,
    observation: MarkedRootObservation,
    caps: RecoveryCaps,
    limits: StoreLimits,
) -> Result<MarkedRootModel, DurableOpenError> {
    let (errors, model) = root_scan(observation, caps, limits);
    match root_entries_outcome(entries) {
        Err(error) => Err(error),
        Ok(()) => if !root_is_complete(entries) {
            Err(DurableOpenError::DurableStateCorrupt)
        } else {
            match scan_errors::dominant(errors) {
                Some(error) => Err(error),
                None => if candidate_count(model.agents) + candidate_count(model.sessions) > 1 {
                    Err(DurableOpenError::DurableStateCorrupt)
                } else {
                    Ok(model)
                },
            }
        },
    }
}

pub open spec fn root_scanned(result: Result<MarkedRootScan, DurableOpenError>) -> Result<
    MarkedRootModel,
    DurableOpenError,
> {
    match result {
        Ok(scan) => Ok(scan@),
        Err(error) => Err(error),
    }
}

fn scan_collection_entities(
    collection: &EntityCollectionObservation,
    places: &Vec<EntityPlace>,
    reservations: &Reservations,
    kind: EntityKind,
    maximum: usize,
    caps: RecoveryCaps,
    limits: StoreLimits,
    errors: &mut PhysicalScanErrors,
) -> (scans: Vec<EntityScan>)
    requires
        collection_scan::are_places(
            places@,
            collection_scan::collection_scan(*collection, kind, reservations@, maximum),
        ),
        places@.len() > 0 ==> collection_scan::collection_scan(
            *collection,
            kind,
            reservations@,
            maximum,
        ).entries == collection.listing.entries@,
    ensures
        ({
            let scan = collection_scan::collection_scan(*collection, kind, reservations@, maximum);
            &&& entity_models(scans@) == entity_scans(
                scan.entries,
                scan.places,
                scan.ids,
                kind,
                caps,
                limits,
            )
            &&& final(errors)@ == old(errors)@ + entity_scan_errors(
                scan.entries,
                scan.places,
                scan.ids,
                kind,
                caps,
                limits,
            )
        }),
{
    let ghost scan = collection_scan::collection_scan(*collection, kind, reservations@, maximum);
    if places.len() == 0 {
        proof {
            assert(scan.ids =~= seq![]);
            assert(errors@ =~= old(errors)@ + entity_scan_errors(
                scan.entries,
                scan.places,
                scan.ids,
                kind,
                caps,
                limits,
            ));
        }
        let nothing: Vec<EntityScan> = Vec::new();
        assert(entity_models(nothing@) =~= seq![]);
        return nothing;
    }
    scan_places(
        &collection.listing.entries,
        places,
        kind,
        caps,
        limits,
        errors,
        Ghost(scan.places),
    )
}

/// The physical half of recovery: scans everything below a marked root and decides whether the
/// documents may be read at all.
pub fn scan_marked_root(
    entries: &Vec<RootEntryObservation>,
    observation: &MarkedRootObservation,
    caps: RecoveryCaps,
    limits: StoreLimits,
) -> (result: Result<MarkedRootScan, DurableOpenError>)
    ensures
        root_scanned(result) == marked_root_outcome(entries@, *observation, caps, limits),
{
    match validate_marked_root_entries(entries) {
        Err(error) => return Err(error),
        Ok(()) => {},
    }
    let mut errors = PhysicalScanErrors::new();
    let (agent_reservations, session_reservations) = recover_marked_reservations(
        &observation.reservations,
        caps,
        &mut errors,
    );
    let agent_places = scan_agent_entities(
        &observation.agents,
        &agent_reservations,
        caps.root_agents,
        &mut errors,
    );
    let session_places = scan_session_entities(
        &observation.sessions,
        &session_reservations,
        caps.root_sessions,
        &mut errors,
    );
    let agents = scan_collection_entities(
        &observation.agents,
        &agent_places,
        &agent_reservations,
        EntityKind::Agent,
        caps.root_agents,
        caps,
        limits,
        &mut errors,
    );
    let sessions = scan_collection_entities(
        &observation.sessions,
        &session_places,
        &session_reservations,
        EntityKind::Session,
        caps.root_sessions,
        caps,
        limits,
        &mut errors,
    );
    assert(errors@ =~= root_scan(*observation, caps, limits).0);
    match errors.finish() {
        Err(error) => return Err(error),
        Ok(()) => {},
    }
    if physical_recovery_candidate_count(&agents, &sessions) > 1 {
        return Err(DurableOpenError::DurableStateCorrupt);
    }
    Ok(MarkedRootScan { agent_reservations, session_reservations, agents, sessions })
}

proof fn lemma_quiet_entities_are_reserved(
    entries: Seq<EntityEntryObservation>,
    places: Map<u128, int>,
    ids: Seq<u128>,
    reservations: Map<u128, CleanupNodeIdentityShape>,
)
    requires
        collection_scan::listed_errors(entries, places, ids, reservations).len() == 0,
    ensures
        forall|i: int| 0 <= i < ids.len() ==> reservations.contains_key(#[trigger] ids[i]),
    decreases ids.len(),
{
    if ids.len() > 0 {
        let front = ids.drop_last();
        lemma_quiet_entities_are_reserved(entries, places, front, reservations);
        assert forall|i: int| 0 <= i < ids.len() implies reservations.contains_key(
            #[trigger] ids[i],
        ) by {
            if i < front.len() {
                assert(front[i] == ids[i]);
            }
        }
    }
}

proof fn lemma_enterable_are_listed(
    entries: Seq<EntityEntryObservation>,
    places: Map<u128, int>,
    ids: Seq<u128>,
)
    ensures
        forall|i: int|
            0 <= i < collection_scan::enterable_ids(entries, places, ids).len() ==> ids.contains(
                #[trigger] collection_scan::enterable_ids(entries, places, ids)[i],
            ),
    decreases ids.len(),
{
    if ids.len() > 0 {
        let front = ids.drop_last();
        lemma_enterable_are_listed(entries, places, front);
        let inner = collection_scan::enterable_ids(entries, places, front);
        let kept = collection_scan::enterable_ids(entries, places, ids);
        assert forall|i: int| 0 <= i < kept.len() implies ids.contains(#[trigger] kept[i]) by {
            if i < inner.len() {
                assert(kept[i] == inner[i]);
                let k = choose|k: int| 0 <= k < front.len() && front[k] == inner[i];
                assert(ids[k] == kept[i]);
            } else {
                assert(ids[ids.len() - 1] == kept[i]);
            }
        }
    }
}

proof fn lemma_scans_are_enterable(
    entries: Seq<EntityEntryObservation>,
    places: Map<u128, int>,
    ids: Seq<u128>,
    kind: EntityKind,
    caps: RecoveryCaps,
    limits: StoreLimits,
)
    ensures
        ({
            let scans = entity_scans(entries, places, ids, kind, caps, limits);
            forall|i: int| 0 <= i < scans.len() ==> ids.contains((#[trigger] scans[i]).0)
        }),
    decreases ids.len(),
{
    if ids.len() > 0 {
        let front = ids.drop_last();
        lemma_scans_are_enterable(entries, places, front, kind, caps, limits);
        let inner = entity_scans(entries, places, front, kind, caps, limits);
        let scans = entity_scans(entries, places, ids, kind, caps, limits);
        assert forall|i: int| 0 <= i < scans.len() implies ids.contains(
            (#[trigger] scans[i]).0,
        ) by {
            if i < inner.len() {
                assert(scans[i] == inner[i]);
                let k = choose|k: int| 0 <= k < front.len() && front[k] == inner[i].0;
                assert(ids[k] == scans[i].0);
            } else {
                assert(ids[ids.len() - 1] == scans[i].0);
            }
        }
    }
}

proof fn lemma_collection_is_reserved(
    collection: EntityCollectionObservation,
    kind: EntityKind,
    reservations: Map<u128, CleanupNodeIdentityShape>,
    maximum: usize,
    caps: RecoveryCaps,
    limits: StoreLimits,
)
    requires
        collection_scan::collection_scan(collection, kind, reservations, maximum).errors.len()
            == 0,
    ensures
        ({
            let scan = collection_scan::collection_scan(collection, kind, reservations, maximum);
            let scans = entity_scans(scan.entries, scan.places, scan.ids, kind, caps, limits);
            forall|i: int|
                0 <= i < scans.len() ==> reservations.contains_key((#[trigger] scans[i]).0)
        }),
{
    let scan = collection_scan::collection_scan(collection, kind, reservations, maximum);
    let listed = crate::idmap::ascending_ids(scan.places.dom());
    let scans = entity_scans(scan.entries, scan.places, scan.ids, kind, caps, limits);
    lemma_quiet_entities_are_reserved(scan.entries, scan.places, listed, reservations);
    lemma_enterable_are_listed(scan.entries, scan.places, listed);
    lemma_scans_are_enterable(scan.entries, scan.places, scan.ids, kind, caps, limits);
    assert forall|i: int| 0 <= i < scans.len() implies reservations.contains_key(
        (#[trigger] scans[i]).0,
    ) by {
        let k = choose|k: int| 0 <= k < scan.ids.len() && scan.ids[k] == scans[i].0;
        assert(listed.contains(scan.ids[k]));
        let m = choose|m: int| 0 <= m < listed.len() && listed[m] == scan.ids[k];
        assert(reservations.contains_key(listed[m]));
    }
}

/// In an accepted store every entity is reserved, and at most one entity asks for a cleanup.
pub proof fn law_every_entity_is_reserved(
    entries: Seq<RootEntryObservation>,
    observation: MarkedRootObservation,
    caps: RecoveryCaps,
    limits: StoreLimits,
)
    requires
        marked_root_outcome(entries, observation, caps, limits) is Ok,
    ensures
        ({
            let model = marked_root_outcome(entries, observation, caps, limits)->Ok_0;
            &&& forall|i: int|
                0 <= i < model.agents.len() ==> model.agent_reservations.contains_key(
                    (#[trigger] model.agents[i]).0,
                )
            &&& forall|i: int|
                0 <= i < model.sessions.len() ==> model.session_reservations.contains_key(
                    (#[trigger] model.sessions[i]).0,
                )
            &&& candidate_count(model.agents) + candidate_count(model.sessions) <= 1
        }),
{
    let (errors, model) = root_scan(observation, caps, limits);
    assert(errors.len() == 0);
    lemma_collection_is_reserved(
        observation.agents,
        EntityKind::Agent,
        model.agent_reservations,
        caps.root_agents,
        caps,
        limits,
    );
    lemma_collection_is_reserved(
        observation.sessions,
        EntityKind::Session,
        model.session_reservations,
        caps.root_sessions,
        caps,
        limits,
    );
}

/// A size observation anywhere below a complete root decides the outcome, however many other
/// findings come before or after it.
pub proof fn law_size_anywhere_decides(
    entries: Seq<RootEntryObservation>,
    observation: MarkedRootObservation,
    caps: RecoveryCaps,
    limits: StoreLimits,
)
    requires
        root_entries_outcome(entries) is Ok,
        root_is_complete(entries),
        root_scan(observation, caps, limits).0.contains(DurableOpenError::DurableStateTooLarge),
    ensures
        marked_root_outcome(entries, observation, caps, limits) == Err::<
            MarkedRootModel,
            DurableOpenError,
        >(DurableOpenError::DurableStateTooLarge),
{
}

} // verus!
