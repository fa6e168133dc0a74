//! Which roots a scan accepts, said over the entries that they show.

use crate::collection_scan;
use crate::collection_scan::{
    EntityCollectionObservation, EntityEntryObservation, NamedEntryObservation, RecoveryCaps,
    ReservationCollectionObservation, ReservationEntryObservation, ReservationsObservation,
};
use crate::entity_scan;
use crate::entity_scan::{EntityKind, EntityScanModel};
use crate::idmap;
use crate::ids;
use crate::open_error::DurableOpenError;
use crate::physical::CleanupNodeIdentityShape;
use crate::physical::StoreLimits;
use crate::root_scan;
use crate::root_scan::{MarkedRootModel, MarkedRootObservation, RootEntryObservation};
use crate::scan_errors;
use crate::scan_laws;
use vstd::prelude::*;
use vstd::utf8;

verus! {

/// The name of an entity and of its reservation.
pub open spec fn name_of(kind: EntityKind, id: u128) -> Seq<u8> {
    match kind {
        EntityKind::Agent => ids::agent_name(id),
        EntityKind::Session => ids::session_name(id),
    }
}

/// An identity is read from exactly the one name that is written for it; zero names nothing.
pub proof fn law_identities_are_read_as_they_are_written(kind: EntityKind, name: Seq<u8>, id: u128)
    ensures
        collection_scan::entity_id(kind, name) == Some(id) <==> id != 0 && name == name_of(kind, id),
{
    let prefix = match kind {
        EntityKind::Agent => ids::agent_prefix(),
        EntityKind::Session => ids::session_prefix(),
    };
    if id != 0 && name == name_of(kind, id) {
        assert(name == ids::identity_name(prefix, id));
        let v = choose|v: u128| v != 0 && name == #[trigger] ids::identity_name(prefix, v);
        ids::lemma_identity_name_injective(prefix, v, id);
    }
}

/// Whether reservations are in order: each an accepted marker with the name of an identity, none twice.
pub open spec fn are_reservations(
    entries: Seq<ReservationEntryObservation>,
    kind: EntityKind,
) -> bool {
    &&& forall|i: int|
        0 <= i < entries.len() ==> collection_scan::entity_id(
            kind,
            (#[trigger] entries[i]).name@,
        ) is Some && entries[i].marker.outcome() is Ok
    &&& forall|i: int, j: int|
        0 <= i < j < entries.len() ==> (#[trigger] entries[i]).name@ != (
        #[trigger] entries[j]).name@
}

/// Whether an identity is among reservations, with what was seen of its marker.
pub open spec fn is_reserved_as(
    entries: Seq<ReservationEntryObservation>,
    kind: EntityKind,
    id: u128,
    shape: CleanupNodeIdentityShape,
) -> bool {
    exists|i: int|
        0 <= i < entries.len() && collection_scan::entity_id(kind, (#[trigger] entries[i]).name@)
            == Some(id) && entries[i].marker.outcome() == Ok::<
            CleanupNodeIdentityShape,
            DurableOpenError,
        >(shape)
}

proof fn lemma_reservation_walk(entries: Seq<ReservationEntryObservation>, kind: EntityKind)
    ensures
        ({
            let walk = collection_scan::reservation_walk(entries, kind);
            &&& walk.errors.len() == 0 <==> are_reservations(entries, kind)
            &&& walk.errors.len() == 0 ==> {
                &&& forall|i: int|
                    0 <= i < entries.len() ==> walk.reservations.contains_key(
                        collection_scan::entity_id(kind, (#[trigger] entries[i]).name@)->0,
                    )
                &&& forall|id: u128| #[trigger]
                    walk.reservations.contains_key(id) ==> is_reserved_as(
                        entries,
                        kind,
                        id,
                        walk.reservations[id],
                    )
            }
        }),
    decreases entries.len(),
{
    if entries.len() > 0 {
        let front = entries.drop_last();
        let last = entries.last();
        lemma_reservation_walk(front, kind);
        let before = collection_scan::reservation_walk(front, kind);
        let walk = collection_scan::reservation_walk(entries, kind);
        assert(entries[entries.len() - 1] == last);
        assert forall|i: int| 0 <= i < front.len() implies front[i] == entries[i] by {}
        if walk.errors.len() == 0 {
            assert(before.errors.len() == 0);
            let id = collection_scan::entity_id(kind, last.name@)->0;
            assert forall|i: int, j: int| 0 <= i < j < entries.len() implies (
            #[trigger] entries[i]).name@ != (#[trigger] entries[j]).name@ by {
                if j == front.len() {
                    assert(before.reservations.contains_key(
                        collection_scan::entity_id(kind, front[i].name@)->0,
                    ));
                } else {
                    assert(front[i].name@ != front[j].name@);
                }
            }
            assert forall|i: int| 0 <= i < entries.len() implies collection_scan::entity_id(
                kind,
                (#[trigger] entries[i]).name@,
            ) is Some && entries[i].marker.outcome() is Ok && walk.reservations.contains_key(
                collection_scan::entity_id(kind, entries[i].name@)->0,
            ) by {
                if i < front.len() {
                    assert(front[i] == entries[i]);
                }
            }
            assert forall|other: u128| #[trigger]
                walk.reservations.contains_key(other) implies is_reserved_as(
                entries,
                kind,
                other,
                walk.reservations[other],
            ) by {
                if other == id {
                    assert(entries[entries.len() - 1].marker.outcome() == Ok::<
                        CleanupNodeIdentityShape,
                        DurableOpenError,
                    >(walk.reservations[id]));
                } else {
                    assert(before.reservations.contains_key(other));
                    let k = choose|k: int|
                        0 <= k < front.len() && collection_scan::entity_id(
                            kind,
                            (#[trigger] front[k]).name@,
                        ) == Some(other) && front[k].marker.outcome() == Ok::<
                            CleanupNodeIdentityShape,
                            DurableOpenError,
                        >(before.reservations[other]);
                    assert(entries[k] == front[k]);
                }
            }
        }
        if are_reservations(entries, kind) {
            assert forall|i: int| 0 <= i < front.len() implies collection_scan::entity_id(
                kind,
                (#[trigger] front[i]).name@,
            ) is Some && front[i].marker.outcome() is Ok by {
                assert(front[i] == entries[i]);
            }
            assert forall|i: int, j: int| 0 <= i < j < front.len() implies (
            #[trigger] front[i]).name@ != (#[trigger] front[j]).name@ by {
                assert(entries[i].name@ != entries[j].name@);
            }
            assert(are_reservations(front, kind));
            let id = collection_scan::entity_id(kind, last.name@)->0;
            if before.reservations.contains_key(id) {
                let k = choose|k: int|
                    0 <= k < front.len() && collection_scan::entity_id(
                        kind,
                        (#[trigger] front[k]).name@,
                    ) == Some(id) && front[k].marker.outcome() == Ok::<
                        CleanupNodeIdentityShape,
                        DurableOpenError,
                    >(before.reservations[id]);
                law_identities_are_read_as_they_are_written(kind, front[k].name@, id);
                law_identities_are_read_as_they_are_written(kind, last.name@, id);
                assert(entries[k].name@ == entries[entries.len() - 1].name@);
            }
        }
    }
}

/// A collection of reservations is accepted exactly if it is a private directory, holds no more than
/// the maximum, and every entry is an accepted marker with the name of an identity. Then exactly the
/// identities that it names are reserved, each known by its marker.
pub proof fn law_reservation_collections(
    collection: ReservationCollectionObservation,
    kind: EntityKind,
    maximum: usize,
)
    ensures
        ({
            let entries = collection.listing.entries@;
            let scan = collection_scan::reservation_scan(collection, kind, maximum);
            &&& scan.errors.len() == 0 <==> {
                &&& scan_laws::is_private_directory(collection.metadata)
                &&& collection.listing.opened is Ok && !collection.listing.interrupted
                &&& entries.len() <= maximum
                &&& are_reservations(entries, kind)
            }
            &&& scan.errors.len() == 0 ==> {
                &&& forall|i: int|
                    0 <= i < entries.len() ==> scan.reservations.contains_key(
                        collection_scan::entity_id(kind, (#[trigger] entries[i]).name@)->0,
                    )
                &&& forall|id: u128| #[trigger]
                    scan.reservations.contains_key(id) ==> is_reserved_as(
                        entries,
                        kind,
                        id,
                        scan.reservations[id],
                    )
            }
        }),
{
    lemma_reservation_walk(collection.listing.entries@, kind);
}

/// Whether the entities of a collection are in order: each a private directory with the name of a
/// reserved identity, none twice.
pub open spec fn are_entities(
    entries: Seq<EntityEntryObservation>,
    kind: EntityKind,
    reservations: Map<u128, CleanupNodeIdentityShape>,
) -> bool {
    &&& forall|i: int|
        0 <= i < entries.len() ==> {
            let id = collection_scan::entity_id(kind, (#[trigger] entries[i]).name@);
            &&& id is Some && reservations.contains_key(id->0)
            &&& scan_laws::is_private_directory(entries[i].metadata)
        }
    &&& forall|i: int, j: int|
        0 <= i < j < entries.len() ==> (#[trigger] entries[i]).name@ != (
        #[trigger] entries[j]).name@
}

proof fn lemma_places(entries: Seq<EntityEntryObservation>, kind: EntityKind)
    ensures
        ({
            let placed = collection_scan::entity_places(entries, kind);
            &&& forall|id: u128| #[trigger]
                placed.places.contains_key(id) ==> 0 <= placed.places[id] < entries.len()
                    && collection_scan::entity_id(kind, entries[placed.places[id]].name@) == Some(
                    id,
                )
            &&& forall|i: int|
                0 <= i < entries.len() && collection_scan::entity_id(
                    kind,
                    (#[trigger] entries[i]).name@,
                ) is Some ==> placed.places.contains_key(
                    collection_scan::entity_id(kind, entries[i].name@)->0,
                )
            &&& placed.places.dom().finite()
            &&& placed.errors.len() == 0 <==> {
                &&& forall|i: int|
                    0 <= i < entries.len() ==> collection_scan::entity_id(
                        kind,
                        (#[trigger] entries[i]).name@,
                    ) is Some
                &&& forall|i: int, j: int|
                    0 <= i < j < entries.len() ==> (#[trigger] entries[i]).name@ != (
                    #[trigger] entries[j]).name@
            }
        }),
    decreases entries.len(),
{
    if entries.len() > 0 {
        let front = entries.drop_last();
        let last = entries.last();
        lemma_places(front, kind);
        let before = collection_scan::entity_places(front, kind);
        let placed = collection_scan::entity_places(entries, kind);
        let found = collection_scan::entity_id(kind, last.name@);
        assert(entries[entries.len() - 1] == last);
        assert forall|i: int| 0 <= i < front.len() implies front[i] == entries[i] by {}
        if found is Some {
            let id = found->0;
            assert(placed.places.dom() =~= before.places.dom().insert(id));
            if before.places.contains_key(id) {
                let k = before.places[id];
                law_identities_are_read_as_they_are_written(kind, front[k].name@, id);
                law_identities_are_read_as_they_are_written(kind, last.name@, id);
                assert(entries[k].name@ == entries[entries.len() - 1].name@);
            } else {
                assert forall|i: int| 0 <= i < front.len() implies (#[trigger] front[i]).name@
                    != last.name@ by {
                    if front[i].name@ == last.name@ {
                        assert(before.places.contains_key(
                            collection_scan::entity_id(kind, front[i].name@)->0,
                        ));
                    }
                }
            }
        }
        if placed.errors.len() == 0 {
            assert(before.errors.len() == 0);
            assert forall|i: int, j: int| 0 <= i < j < entries.len() implies (
            #[trigger] entries[i]).name@ != (#[trigger] entries[j]).name@ by {
                assert(front[i] == entries[i]);
                if j < front.len() {
                    assert(front[j] == entries[j]);
                }
            }
            assert forall|i: int| 0 <= i < entries.len() implies collection_scan::entity_id(
                kind,
                (#[trigger] entries[i]).name@,
            ) is Some by {
                if i < front.len() {
                    assert(front[i] == entries[i]);
                }
            }
        } else {
            if before.errors.len() != 0 {
                if exists|i: int|
                    0 <= i < front.len() && collection_scan::entity_id(
                        kind,
                        (#[trigger] front[i]).name@,
                    ) is None {
                    let i = choose|i: int|
                        0 <= i < front.len() && collection_scan::entity_id(
                            kind,
                            (#[trigger] front[i]).name@,
                        ) is None;
                    assert(entries[i] == front[i]);
                } else {
                    let (i, j) = choose|i: int, j: int|
                        0 <= i < j < front.len() && (#[trigger] front[i]).name@ == (
                        #[trigger] front[j]).name@;
                    assert(entries[i].name@ == entries[j].name@);
                }
            }
        }
        assert forall|id: u128| #[trigger] placed.places.contains_key(id) implies 0
            <= placed.places[id] < entries.len() && collection_scan::entity_id(
            kind,
            entries[placed.places[id]].name@,
        ) == Some(id) by {
            if found != Some(id) {
                assert(before.places.contains_key(id));
                assert(front[before.places[id]] == entries[before.places[id]]);
            }
        }
        assert forall|i: int|
            0 <= i < entries.len() && collection_scan::entity_id(
                kind,
                (#[trigger] entries[i]).name@,
            ) is Some implies placed.places.contains_key(
            collection_scan::entity_id(kind, entries[i].name@)->0,
        ) by {
            if i < front.len() {
                assert(front[i] == entries[i]);
            }
        }
    }
}

proof fn lemma_listed(
    entries: Seq<EntityEntryObservation>,
    places: Map<u128, int>,
    listed: Seq<u128>,
    reservations: Map<u128, CleanupNodeIdentityShape>,
)
    ensures
        collection_scan::listed_errors(entries, places, listed, reservations).len() == 0 <==> (
        forall|k: int|
            0 <= k < listed.len() ==> reservations.contains_key(#[trigger] listed[k])
                && scan_laws::is_private_directory(entries[places[listed[k]]].metadata)),
        collection_scan::listed_errors(entries, places, listed, reservations).len() == 0
            ==> collection_scan::enterable_ids(entries, places, listed) == listed,
    decreases listed.len(),
{
    if listed.len() > 0 {
        let front = listed.drop_last();
        lemma_listed(entries, places, front, reservations);
        assert(listed[listed.len() - 1] == listed.last());
        assert forall|k: int| 0 <= k < front.len() implies front[k] == listed[k] by {}
        let errors = collection_scan::listed_errors(entries, places, listed, reservations);
        if errors.len() == 0 {
            assert forall|k: int| 0 <= k < listed.len() implies reservations.contains_key(
                #[trigger] listed[k],
            ) && scan_laws::is_private_directory(entries[places[listed[k]]].metadata) by {
                if k < front.len() {
                    assert(front[k] == listed[k]);
                }
            }
            assert(front.push(listed.last()) =~= listed);
        }
    }
    assert(collection_scan::listed_errors(entries, places, listed, reservations).len() == 0
        ==> collection_scan::enterable_ids(entries, places, listed) =~= listed);
}

/// A collection of entities is accepted exactly if it is a private directory, holds no more than the
/// maximum, and every entry is a private directory with the name of a reserved identity. Then exactly
/// the identities that it names are scanned, lowest first, each at its own entry.
pub proof fn law_entity_collections(
    collection: EntityCollectionObservation,
    kind: EntityKind,
    reservations: Map<u128, CleanupNodeIdentityShape>,
    maximum: usize,
)
    ensures
        ({
            let entries = collection.listing.entries@;
            let scan = collection_scan::collection_scan(collection, kind, reservations, maximum);
            &&& scan.errors.len() == 0 <==> {
                &&& scan_laws::is_private_directory(collection.metadata)
                &&& collection.listing.opened is Ok && !collection.listing.interrupted
                &&& entries.len() <= maximum
                &&& are_entities(entries, kind, reservations)
            }
            &&& scan.errors.len() == 0 ==> {
                &&& scan.entries == entries
                &&& forall|k: int, m: int|
                    0 <= k < m < scan.ids.len() ==> (#[trigger] scan.ids[k]) < (
                    #[trigger] scan.ids[m])
                &&& forall|i: int|
                    0 <= i < entries.len() ==> scan.ids.contains(
                        collection_scan::entity_id(kind, (#[trigger] entries[i]).name@)->0,
                    )
                &&& forall|k: int|
                    0 <= k < scan.ids.len() ==> {
                        let place = scan.places[#[trigger] scan.ids[k]];
                        0 <= place < entries.len() && collection_scan::entity_id(
                            kind,
                            entries[place].name@,
                        ) == Some(scan.ids[k])
                    }
            }
        }),
{
    let entered = collection_scan::entered(collection.metadata, collection.listing, maximum);
    let entries = collection.listing.entries@;
    lemma_places(entered, kind);
    let placed = collection_scan::entity_places(entered, kind);
    let listed = idmap::ascending_ids(placed.places.dom());
    idmap::lemma_ascending_ids(placed.places.dom());
    lemma_listed(entered, placed.places, listed, reservations);
    let scan = collection_scan::collection_scan(collection, kind, reservations, maximum);
    let quiet = collection_scan::entering_errors(
        collection.metadata,
        collection.listing,
        maximum,
    ).len() == 0;
    assert(quiet ==> entered == entries);
    assert forall|k: int| 0 <= k < listed.len() implies placed.places.contains_key(
        #[trigger] listed[k],
    ) by {
        assert(listed.to_set().contains(listed[k]));
    }
    assert forall|i: int|
        0 <= i < entered.len() && collection_scan::entity_id(
            kind,
            (#[trigger] entered[i]).name@,
        ) is Some implies listed.contains(
        collection_scan::entity_id(kind, entered[i].name@)->0,
    ) by {
        assert(listed.to_set().contains(collection_scan::entity_id(kind, entered[i].name@)->0));
    }
    if scan.errors.len() == 0 {
        assert(quiet);
        assert(scan.ids == listed);
        assert forall|i: int| 0 <= i < entries.len() implies {
            let id = collection_scan::entity_id(kind, (#[trigger] entries[i]).name@);
            &&& id is Some && reservations.contains_key(id->0)
            &&& scan_laws::is_private_directory(entries[i].metadata)
        } by {
            let id = collection_scan::entity_id(kind, entries[i].name@)->0;
            assert(listed.contains(id));
            let k = choose|k: int| 0 <= k < listed.len() && listed[k] == id;
            assert(reservations.contains_key(listed[k]));
            let place = placed.places[id];
            law_identities_are_read_as_they_are_written(kind, entries[i].name@, id);
            law_identities_are_read_as_they_are_written(kind, entries[place].name@, id);
            if place < i {
                assert(entries[place].name@ != entries[i].name@);
            } else if i < place {
                assert(entries[i].name@ != entries[place].name@);
            }
        }
    }
    if quiet && are_entities(entries, kind, reservations) {
        assert forall|k: int| 0 <= k < listed.len() implies reservations.contains_key(
            #[trigger] listed[k],
        ) && scan_laws::is_private_directory(entries[placed.places[listed[k]]].metadata) by {
            assert(placed.places.contains_key(listed[k]));
            let place = placed.places[listed[k]];
            assert(collection_scan::entity_id(kind, entries[place].name@) == Some(listed[k]));
        }
        assert(placed.errors.len() == 0);
        assert(scan.errors.len() == 0);
    }
}

proof fn lemma_reservations_entries(entries: Seq<NamedEntryObservation>)
    ensures
        collection_scan::reservations_entry_errors(entries).len() == 0 <==> (forall|i: int|
            0 <= i < entries.len() ==> ((#[trigger] entries[i]).name@ == utf8::encode_utf8(
                "agents"@,
            ) || entries[i].name@ == utf8::encode_utf8("sessions"@))
                && scan_laws::is_private_directory(entries[i].metadata)),
    decreases entries.len(),
{
    if entries.len() > 0 {
        let front = entries.drop_last();
        lemma_reservations_entries(front);
        assert(entries[entries.len() - 1] == entries.last());
        assert forall|i: int| 0 <= i < front.len() implies front[i] == entries[i] by {}
        if collection_scan::reservations_entry_errors(entries).len() == 0 {
            assert forall|i: int| 0 <= i < entries.len() implies ((#[trigger] entries[i]).name@
                == utf8::encode_utf8("agents"@) || entries[i].name@ == utf8::encode_utf8(
                "sessions"@,
            )) && scan_laws::is_private_directory(entries[i].metadata) by {
                if i < front.len() {
                    assert(front[i] == entries[i]);
                }
            }
        }
    }
}

/// The directory of all reservations is accepted exactly if it holds the two private directories for
/// Agents and for Sessions, and nothing else.
pub proof fn law_the_reservations_directory(observation: ReservationsObservation)
    ensures
        collection_scan::reservations_directory_errors(observation.listing).len() == 0 <==> {
            let entries = observation.listing.entries@;
            &&& observation.listing.opened is Ok && !observation.listing.interrupted
            &&& entries.len() == 2
            &&& forall|i: int|
                0 <= i < entries.len() ==> ((#[trigger] entries[i]).name@ == utf8::encode_utf8(
                    "agents"@,
                ) || entries[i].name@ == utf8::encode_utf8("sessions"@))
                    && scan_laws::is_private_directory(entries[i].metadata)
            &&& entries[0].name@ != entries[1].name@
        },
{
    let entries = observation.listing.entries@;
    lemma_reservations_entries(entries);
    assert(utf8::encode_utf8("agents"@) != utf8::encode_utf8("sessions"@)) by {
        reveal_strlit("agents");
        reveal_strlit("sessions");
        utf8::encode_utf8_decode_utf8("agents"@);
        utf8::encode_utf8_decode_utf8("sessions"@);
        assert("agents"@.len() == 6);
        assert("sessions"@.len() == 8);
    }
    let bounded = observation.listing.bounded(2usize);
    if collection_scan::reservations_directory_errors(observation.listing).len() == 0 {
        assert(collection_scan::lists_name(entries, "agents"));
        assert(collection_scan::lists_name(entries, "sessions"));
        let a = choose|a: int|
            0 <= a < entries.len() && (#[trigger] entries[a]).name@ == utf8::encode_utf8("agents"@);
        let b = choose|b: int|
            0 <= b < entries.len() && (#[trigger] entries[b]).name@ == utf8::encode_utf8(
                "sessions"@,
            );
        assert(a != b);
    }
    if entries.len() == 2 && entries[0].name@ != entries[1].name@ {
        assert(entries[0].name@ == utf8::encode_utf8("agents"@) || entries[0].name@
            == utf8::encode_utf8("sessions"@) ==> (entries[1].name@ == utf8::encode_utf8("agents"@)
            || entries[1].name@ == utf8::encode_utf8("sessions"@) ==> collection_scan::lists_name(
            entries,
            "agents",
        ) && collection_scan::lists_name(entries, "sessions")));
    }
}

/// Whether an entry of the root is what its name says.
pub open spec fn is_root_entry(entry: RootEntryObservation) -> bool {
    let name = entry.name@;
    ||| name == utf8::encode_utf8(".minicore.lock"@) && scan_laws::is_private_file(entry.metadata)
    ||| name == utf8::encode_utf8("MINICORE_STORE_V1"@) && scan_laws::is_private_file(
        entry.metadata,
    ) && entry.marker.outcome() is Ok
    ||| (name == utf8::encode_utf8("reservations"@) || name == utf8::encode_utf8("agents"@) || name
        == utf8::encode_utf8("sessions"@)) && scan_laws::is_private_directory(entry.metadata)
}

pub proof fn lemma_root_names_differ()
    ensures
        utf8::encode_utf8(".minicore.lock"@) != utf8::encode_utf8("MINICORE_STORE_V1"@),
        utf8::encode_utf8(".minicore.lock"@) != utf8::encode_utf8("reservations"@),
        utf8::encode_utf8(".minicore.lock"@) != utf8::encode_utf8("agents"@),
        utf8::encode_utf8(".minicore.lock"@) != utf8::encode_utf8("sessions"@),
        utf8::encode_utf8("MINICORE_STORE_V1"@) != utf8::encode_utf8("reservations"@),
        utf8::encode_utf8("MINICORE_STORE_V1"@) != utf8::encode_utf8("agents"@),
        utf8::encode_utf8("MINICORE_STORE_V1"@) != utf8::encode_utf8("sessions"@),
{
    reveal_strlit(".minicore.lock");
    reveal_strlit("MINICORE_STORE_V1");
    reveal_strlit("reservations");
    reveal_strlit("agents");
    reveal_strlit("sessions");
    utf8::encode_utf8_decode_utf8(".minicore.lock"@);
    utf8::encode_utf8_decode_utf8("MINICORE_STORE_V1"@);
    utf8::encode_utf8_decode_utf8("reservations"@);
    utf8::encode_utf8_decode_utf8("agents"@);
    utf8::encode_utf8_decode_utf8("sessions"@);
    assert(".minicore.lock"@.len() == 14);
    assert("MINICORE_STORE_V1"@.len() == 17);
    assert("reservations"@.len() == 12);
    assert("agents"@.len() == 6);
    assert("sessions"@.len() == 8);
}

proof fn lemma_root_entries(entries: Seq<RootEntryObservation>)
    ensures
        root_scan::root_entries_outcome(entries) is Ok <==> (forall|i: int|
            0 <= i < entries.len() ==> is_root_entry(#[trigger] entries[i])),
    decreases entries.len(),
{
    if entries.len() > 0 {
        let front = entries.drop_last();
        lemma_root_entries(front);
        lemma_root_names_differ();
        assert(entries[entries.len() - 1] == entries.last());
        assert forall|i: int| 0 <= i < front.len() implies front[i] == entries[i] by {}
        if root_scan::root_entries_outcome(entries) is Ok {
            assert forall|i: int| 0 <= i < entries.len() implies is_root_entry(
                #[trigger] entries[i],
            ) by {
                if i < front.len() {
                    assert(front[i] == entries[i]);
                }
            }
        }
    }
}

/// Whether a root lists a name.
pub open spec fn root_has(entries: Seq<RootEntryObservation>, name: &str) -> bool {
    exists|i: int|
        0 <= i < entries.len() && (#[trigger] entries[i]).name@ == utf8::encode_utf8(name@)
}

proof fn lemma_scans(
    entries: Seq<EntityEntryObservation>,
    places: Map<u128, int>,
    listed: Seq<u128>,
    kind: EntityKind,
    caps: RecoveryCaps,
    limits: StoreLimits,
)
    ensures
        root_scan::entity_scan_errors(entries, places, listed, kind, caps, limits).len() == 0 <==> (
        forall|k: int|
            0 <= k < listed.len() ==> entity_scan::entity_outcome(
                entries[places[#[trigger] listed[k]]].entity,
                kind,
                caps.generations,
                limits,
            ) is Ok),
        root_scan::entity_scan_errors(entries, places, listed, kind, caps, limits).len() == 0 ==> {
            let scans = root_scan::entity_scans(entries, places, listed, kind, caps, limits);
            &&& scans.len() == listed.len()
            &&& forall|k: int|
                0 <= k < listed.len() ==> #[trigger] scans[k] == (
                    listed[k],
                    entity_scan::entity_outcome(
                        entries[places[listed[k]]].entity,
                        kind,
                        caps.generations,
                        limits,
                    )->Ok_0,
                )
        },
    decreases listed.len(),
{
    if listed.len() > 0 {
        let front = listed.drop_last();
        lemma_scans(entries, places, front, kind, caps, limits);
        assert(listed[listed.len() - 1] == listed.last());
        assert forall|k: int| 0 <= k < front.len() implies front[k] == listed[k] by {}
        let errors = root_scan::entity_scan_errors(entries, places, listed, kind, caps, limits);
        if errors.len() == 0 {
            let scans = root_scan::entity_scans(entries, places, listed, kind, caps, limits);
            assert forall|k: int| 0 <= k < listed.len() implies #[trigger] scans[k] == (
                listed[k],
                entity_scan::entity_outcome(
                    entries[places[listed[k]]].entity,
                    kind,
                    caps.generations,
                    limits,
                )->Ok_0,
            ) by {
                if k < front.len() {
                    assert(front[k] == listed[k]);
                }
            }
            assert forall|k: int| 0 <= k < listed.len() implies entity_scan::entity_outcome(
                entries[places[#[trigger] listed[k]]].entity,
                kind,
                caps.generations,
                limits,
            ) is Ok by {
                if k < front.len() {
                    assert(front[k] == listed[k]);
                }
            }
        }
    }
}

/// Whether every entity of a collection is accepted by itself.
pub open spec fn entities_are_accepted(
    collection: EntityCollectionObservation,
    kind: EntityKind,
    reservations: Map<u128, CleanupNodeIdentityShape>,
    maximum: usize,
    caps: RecoveryCaps,
    limits: StoreLimits,
) -> bool {
    let scan = collection_scan::collection_scan(collection, kind, reservations, maximum);
    &&& scan.errors.len() == 0
    &&& forall|k: int|
        0 <= k < scan.ids.len() ==> entity_scan::entity_outcome(
            scan.entries[scan.places[#[trigger] scan.ids[k]]].entity,
            kind,
            caps.generations,
            limits,
        ) is Ok
}

/// Whether a list of scanned entities is the scan of every entity of a collection.
pub open spec fn are_the_scans(
    scans: Seq<(u128, EntityScanModel)>,
    collection: EntityCollectionObservation,
    kind: EntityKind,
    reservations: Map<u128, CleanupNodeIdentityShape>,
    maximum: usize,
    caps: RecoveryCaps,
    limits: StoreLimits,
) -> bool {
    let scan = collection_scan::collection_scan(collection, kind, reservations, maximum);
    &&& scans.len() == scan.ids.len()
    &&& forall|k: int|
        0 <= k < scans.len() ==> #[trigger] scans[k] == (
            scan.ids[k],
            entity_scan::entity_outcome(
                scan.entries[scan.places[scan.ids[k]]].entity,
                kind,
                caps.generations,
                limits,
            )->Ok_0,
        )
}

/// A root is accepted exactly if its five entries are there and are what their names say, its
/// reservations and its entities are in order, every entity is accepted by itself, and at most one of
/// them asks for a cleanup. What is scanned is the reservations and every entity as it was accepted.
pub proof fn law_marked_roots(
    entries: Seq<RootEntryObservation>,
    observation: MarkedRootObservation,
    caps: RecoveryCaps,
    limits: StoreLimits,
)
    ensures
        ({
            let outcome = root_scan::marked_root_outcome(entries, observation, caps, limits);
            let agents = collection_scan::reservation_scan(
                observation.reservations.agents,
                EntityKind::Agent,
                caps.agent_reservations,
            );
            let sessions = collection_scan::reservation_scan(
                observation.reservations.sessions,
                EntityKind::Session,
                caps.session_reservations,
            );
            let scanned = root_scan::root_scan(observation, caps, limits).1;
            &&& outcome is Ok <==> {
                &&& forall|i: int|
                    0 <= i < entries.len() ==> is_root_entry(#[trigger] entries[i])
                &&& root_has(entries, ".minicore.lock") && root_has(entries, "MINICORE_STORE_V1")
                &&& root_has(entries, "reservations") && root_has(entries, "agents") && root_has(
                    entries,
                    "sessions",
                )
                &&& collection_scan::reservations_directory_errors(
                    observation.reservations.listing,
                ).len() == 0
                &&& agents.errors.len() == 0 && sessions.errors.len() == 0
                &&& entities_are_accepted(
                    observation.agents,
                    EntityKind::Agent,
                    agents.reservations,
                    caps.root_agents,
                    caps,
                    limits,
                )
                &&& entities_are_accepted(
                    observation.sessions,
                    EntityKind::Session,
                    sessions.reservations,
                    caps.root_sessions,
                    caps,
                    limits,
                )
                &&& root_scan::candidate_count(scanned.agents) + root_scan::candidate_count(
                    scanned.sessions,
                ) <= 1
            }
            &&& outcome matches Ok(model) ==> {
                &&& model.agent_reservations == agents.reservations
                &&& model.session_reservations == sessions.reservations
                &&& are_the_scans(
                    model.agents,
                    observation.agents,
                    EntityKind::Agent,
                    agents.reservations,
                    caps.root_agents,
                    caps,
                    limits,
                )
                &&& are_the_scans(
                    model.sessions,
                    observation.sessions,
                    EntityKind::Session,
                    sessions.reservations,
                    caps.root_sessions,
                    caps,
                    limits,
                )
            }
        }),
{
    lemma_root_entries(entries);
    let agents = collection_scan::reservation_scan(
        observation.reservations.agents,
        EntityKind::Agent,
        caps.agent_reservations,
    );
    let sessions = collection_scan::reservation_scan(
        observation.reservations.sessions,
        EntityKind::Session,
        caps.session_reservations,
    );
    let agent_scan = collection_scan::collection_scan(
        observation.agents,
        EntityKind::Agent,
        agents.reservations,
        caps.root_agents,
    );
    let session_scan = collection_scan::collection_scan(
        observation.sessions,
        EntityKind::Session,
        sessions.reservations,
        caps.root_sessions,
    );
    lemma_scans(
        agent_scan.entries,
        agent_scan.places,
        agent_scan.ids,
        EntityKind::Agent,
        caps,
        limits,
    );
    lemma_scans(
        session_scan.entries,
        session_scan.places,
        session_scan.ids,
        EntityKind::Session,
        caps,
        limits,
    );
    let errors = root_scan::root_scan(observation, caps, limits).0;
    scan_errors::law_size_dominates(errors, seq![], DurableOpenError::DurableStateCorrupt);
    assert(root_scan::root_is_complete(entries) <==> root_has(entries, ".minicore.lock")
        && root_has(entries, "MINICORE_STORE_V1") && root_has(entries, "reservations") && root_has(
        entries,
        "agents",
    ) && root_has(entries, "sessions"));
}

/// A cleanup is asked for exactly by an entity that is not published and by one with a generation
/// behind its committed ones; each counts once, wherever it stands.
pub proof fn law_cleanups_are_counted(
    before: Seq<(u128, EntityScanModel)>,
    id: u128,
    entity: EntityScanModel,
)
    ensures
        root_scan::candidate_count(Seq::empty()) == 0,
        root_scan::candidate_count(before.push((id, entity))) == root_scan::candidate_count(before)
            + match entity {
            EntityScanModel::Unpublished(_) => 1nat,
            EntityScanModel::Published { markerless: Some(_), .. } => 1nat,
            EntityScanModel::Published { markerless: None, .. } => 0nat,
        },
{
    assert(before.push((id, entity)).drop_last() =~= before);
}

/// The first entry of a root that is not what its name says decides: a name that has no place in a root
/// is corrupt, and so is a node of the wrong kind or one that others may use; what cannot be looked up is
/// unavailable; a marker decides with its own error.
pub proof fn law_the_first_wrong_entry_decides(
    before: Seq<RootEntryObservation>,
    entry: RootEntryObservation,
)
    ensures
        root_scan::root_entries_outcome(Seq::empty()) == Ok::<(), DurableOpenError>(()),
        root_scan::root_entries_outcome(before) is Err ==> root_scan::root_entries_outcome(
            before.push(entry),
        ) == root_scan::root_entries_outcome(before),
        root_scan::root_entries_outcome(before) is Ok ==> root_scan::root_entries_outcome(
            before.push(entry),
        ) == root_scan::root_entry_outcome(entry),
        ({
            let name = entry.name@;
            let outcome = root_scan::root_entry_outcome(entry);
            let corrupt = Err::<(), DurableOpenError>(DurableOpenError::DurableStateCorrupt);
            let file = name == utf8::encode_utf8(".minicore.lock"@) || name == utf8::encode_utf8(
                "MINICORE_STORE_V1"@,
            );
            let directory = name == utf8::encode_utf8("reservations"@) || name
                == utf8::encode_utf8("agents"@) || name == utf8::encode_utf8("sessions"@);
            &&& !file && !directory ==> outcome == corrupt
            &&& (file || directory) && entry.metadata is Err ==> outcome == Err::<
                (),
                DurableOpenError,
            >(DurableOpenError::StorageUnavailable)
            &&& file && entry.metadata is Ok && !scan_laws::is_private_file(entry.metadata)
                ==> outcome == corrupt
            &&& directory && entry.metadata is Ok && !scan_laws::is_private_directory(
                entry.metadata,
            ) ==> outcome == corrupt
            &&& name == utf8::encode_utf8("MINICORE_STORE_V1"@) && scan_laws::is_private_file(
                entry.metadata,
            ) ==> (entry.marker.outcome() matches Err(error) ==> outcome == Err::<
                (),
                DurableOpenError,
            >(error))
        }),
{
    assert(before.push(entry).drop_last() =~= before);
    lemma_root_names_differ();
}

/// The findings below a root are reported in this order: the reservations directory, the reservations of
/// Agents and of Sessions, the collections of Agents and of Sessions, the Agents and the Sessions. The
/// first of them decides, unless anything is too large.
pub proof fn law_findings_below_a_root(
    entries: Seq<RootEntryObservation>,
    observation: MarkedRootObservation,
    caps: RecoveryCaps,
    limits: StoreLimits,
)
    requires
        root_scan::root_entries_outcome(entries) is Ok,
        root_scan::root_is_complete(entries),
    ensures
        ({
            let agent_reservations = collection_scan::reservation_scan(
                observation.reservations.agents,
                EntityKind::Agent,
                caps.agent_reservations,
            );
            let session_reservations = collection_scan::reservation_scan(
                observation.reservations.sessions,
                EntityKind::Session,
                caps.session_reservations,
            );
            let agents = collection_scan::collection_scan(
                observation.agents,
                EntityKind::Agent,
                agent_reservations.reservations,
                caps.root_agents,
            );
            let sessions = collection_scan::collection_scan(
                observation.sessions,
                EntityKind::Session,
                session_reservations.reservations,
                caps.root_sessions,
            );
            let one = collection_scan::reservations_directory_errors(
                observation.reservations.listing,
            );
            let two = agent_reservations.errors;
            let three = session_reservations.errors;
            let four = agents.errors;
            let five = sessions.errors;
            let six = root_scan::entity_scan_errors(
                agents.entries,
                agents.places,
                agents.ids,
                EntityKind::Agent,
                caps,
                limits,
            );
            let seven = root_scan::entity_scan_errors(
                sessions.entries,
                sessions.places,
                sessions.ids,
                EntityKind::Session,
                caps,
                limits,
            );
            let size = DurableOpenError::DurableStateTooLarge;
            let large = one.contains(size) || two.contains(size) || three.contains(size)
                || four.contains(size) || five.contains(size) || six.contains(size)
                || seven.contains(size);
            let outcome = root_scan::marked_root_outcome(entries, observation, caps, limits);
            if large {
                outcome == Err::<MarkedRootModel, DurableOpenError>(size)
            } else if one.len() > 0 {
                outcome == Err::<MarkedRootModel, DurableOpenError>(one[0])
            } else if two.len() > 0 {
                outcome == Err::<MarkedRootModel, DurableOpenError>(two[0])
            } else if three.len() > 0 {
                outcome == Err::<MarkedRootModel, DurableOpenError>(three[0])
            } else if four.len() > 0 {
                outcome == Err::<MarkedRootModel, DurableOpenError>(four[0])
            } else if five.len() > 0 {
                outcome == Err::<MarkedRootModel, DurableOpenError>(five[0])
            } else if six.len() > 0 {
                outcome == Err::<MarkedRootModel, DurableOpenError>(six[0])
            } else if seven.len() > 0 {
                outcome == Err::<MarkedRootModel, DurableOpenError>(seven[0])
            } else {
                outcome is Err ==> outcome == Err::<MarkedRootModel, DurableOpenError>(
                    DurableOpenError::DurableStateCorrupt,
                )
            }
        }),
{
    let agent_reservations = collection_scan::reservation_scan(
        observation.reservations.agents,
        EntityKind::Agent,
        caps.agent_reservations,
    );
    let session_reservations = collection_scan::reservation_scan(
        observation.reservations.sessions,
        EntityKind::Session,
        caps.session_reservations,
    );
    let agents = collection_scan::collection_scan(
        observation.agents,
        EntityKind::Agent,
        agent_reservations.reservations,
        caps.root_agents,
    );
    let sessions = collection_scan::collection_scan(
        observation.sessions,
        EntityKind::Session,
        session_reservations.reservations,
        caps.root_sessions,
    );
    let one = collection_scan::reservations_directory_errors(observation.reservations.listing);
    let two = agent_reservations.errors;
    let three = session_reservations.errors;
    let four = agents.errors;
    let five = sessions.errors;
    let six = root_scan::entity_scan_errors(
        agents.entries,
        agents.places,
        agents.ids,
        EntityKind::Agent,
        caps,
        limits,
    );
    let seven = root_scan::entity_scan_errors(
        sessions.entries,
        sessions.places,
        sessions.ids,
        EntityKind::Session,
        caps,
        limits,
    );
    let size = DurableOpenError::DurableStateTooLarge;
    let all = root_scan::root_scan(observation, caps, limits).0;
    assert(all == one + two + three + four + five + six + seven);
    lemma_any(one, two, size);
    lemma_any(one + two, three, size);
    lemma_any(one + two + three, four, size);
    lemma_any(one + two + three + four, five, size);
    lemma_any(one + two + three + four + five, six, size);
    lemma_any(one + two + three + four + five + six, seven, size);
}

pub proof fn lemma_any(
    a: Seq<DurableOpenError>,
    b: Seq<DurableOpenError>,
    error: DurableOpenError,
)
    ensures
        (a + b).contains(error) <==> a.contains(error) || b.contains(error),
        a.len() > 0 ==> (a + b)[0] == a[0],
        a.len() == 0 && b.len() > 0 ==> (a + b)[0] == b[0],
{
    if a.contains(error) {
        let k = choose|k: int| 0 <= k < a.len() && a[k] == error;
        assert((a + b)[k] == error);
    }
    if b.contains(error) {
        let k = choose|k: int| 0 <= k < b.len() && b[k] == error;
        assert((a + b)[a.len() + k] == error);
    }
}

/// Every entry of a collection of reservations is judged by itself: a name that is no identity and one
/// that comes twice are corrupt, a marker decides with its own error, and anything else is one more
/// reservation.
pub proof fn law_each_reservation_is_judged(
    before: Seq<ReservationEntryObservation>,
    entry: ReservationEntryObservation,
    kind: EntityKind,
)
    ensures
        ({
            let walk = collection_scan::reservation_walk(before, kind);
            let after = collection_scan::reservation_walk(before.push(entry), kind);
            let corrupt = walk.errors.push(DurableOpenError::DurableStateCorrupt);
            match collection_scan::entity_id(kind, entry.name@) {
                None => after.reservations == walk.reservations && after.errors == corrupt,
                Some(id) => if walk.reservations.contains_key(id) {
                    after.reservations == walk.reservations && after.errors == corrupt
                } else {
                    match entry.marker.outcome() {
                        Err(error) => after.reservations == walk.reservations && after.errors
                            == walk.errors.push(error),
                        Ok(shape) => after.reservations == walk.reservations.insert(id, shape)
                            && after.errors == walk.errors,
                    }
                },
            }
        }),
{
    assert(before.push(entry).drop_last() =~= before);
}

/// Every listed entity is judged by itself: what cannot be looked up is unavailable; what is not a
/// private directory is corrupt, and so is what is not reserved.
pub proof fn law_each_entity_is_judged(metadata: crate::physical::Lookup, reserved: bool)
    ensures
        collection_scan::listed_entity_errors(metadata, reserved) == if metadata is Err {
            seq![DurableOpenError::StorageUnavailable]
        } else {
            let corrupt = DurableOpenError::DurableStateCorrupt;
            if !scan_laws::is_private_directory(metadata) && !reserved {
                seq![corrupt, corrupt]
            } else if !scan_laws::is_private_directory(metadata) || !reserved {
                seq![corrupt]
            } else {
                seq![]
            }
        },
        collection_scan::is_directory_node(metadata) <==> (metadata matches Ok(node) && node.kind
            == crate::physical::NodeKind::Directory),
{
}

} // verus!
