//! The way into a root, said over what it shows on the way.

use crate::bootstrap;
use crate::bootstrap::{
    ComparedFile, EntranceAction, EntranceEvent, LockAttempt, RootEntrance, SyncAttempt,
};
use crate::cleanup_plan;
use crate::cleanup_plan::DeferredCleanup;
use crate::cleanup_run;
use crate::cleanup_run::{
    CleanupAction, CleanupEvent, CleanupPhase, CleanupRunView, CleanupStep, DirectorySync,
};
use crate::collection_scan::{NamedEntryObservation, RecoveryCaps};
use crate::entity_scan::EntityKind;
use crate::listing::DirectoryListing;
use crate::location::StoreLocation;
use crate::open_error::DurableOpenError;
use crate::opening::{OpenRootView, OpeningAction, OpeningEvent, RootOpeningView};
use crate::physical::{Lookup, LookupError, NodeMetadata, StoreLimits, ZeroFileObservation};
use crate::recovery::RecoveryCandidateView;
use crate::root_laws;
use crate::root_scan::RootEntryObservation;
use crate::scaffold;
use crate::scaffold::{
    DirectoryPhase, MarkerPhase, Scaffold, ScaffoldAction, ScaffoldDirectory, ScaffoldEvent,
};
use crate::scan_laws;
use vstd::prelude::*;
use vstd::utf8;

verus! {

/// What becomes of an entrance once its lock file is open: the file must be private, through its
/// handle and at its path, and one and the same; only one owner gets the lock.
pub open spec fn entered_with(
    marked: bool,
    compared: ComparedFile,
    attempt: LockAttempt,
    sync: SyncAttempt,
) -> RootEntrance {
    match (compared.handle, compared.path) {
        (Ok(handle), Ok(path)) => if !scan_laws::is_private_file(compared.handle)
            || !scan_laws::is_private_file(compared.path) {
            RootEntrance::Refused(
                if marked {
                    DurableOpenError::DurableStateCorrupt
                } else {
                    DurableOpenError::UnsupportedStoreFormat
                },
            )
        } else if handle.identity != path.identity {
            RootEntrance::Refused(DurableOpenError::StorageUnavailable)
        } else {
            match (attempt, sync) {
                (LockAttempt::Held, _) => RootEntrance::Refused(DurableOpenError::StoreInUse),
                (LockAttempt::WouldBlock, _) => RootEntrance::Refused(DurableOpenError::StoreInUse),
                (LockAttempt::Failed, _) => RootEntrance::Refused(
                    DurableOpenError::StorageUnavailable,
                ),
                (LockAttempt::Acquired, SyncAttempt::Synced) => RootEntrance::Entered(
                    DirectorySync::Supported,
                ),
                (LockAttempt::Acquired, SyncAttempt::Unsupported) => RootEntrance::Entered(
                    DirectorySync::Unsupported,
                ),
                (LockAttempt::Acquired, SyncAttempt::Failed) => RootEntrance::Refused(
                    DurableOpenError::StorageUnavailable,
                ),
            }
        },
        _ => RootEntrance::Refused(DurableOpenError::StorageUnavailable),
    }
}

/// An existing root is entered through its lock file, whether or not it is marked; what is asked on the
/// way is asked in this order. A root that is not private is unavailable. A lock file that is not
/// private is corrupt in a marked root, where it must be there, and an unsupported format elsewhere.
pub proof fn law_entering_an_existing_root(
    root: Lookup,
    marker: Lookup,
    lock: Lookup,
    opened: bool,
    compared: ComparedFile,
    attempt: LockAttempt,
    sync: SyncAttempt,
)
    requires
        root is Ok,
    ensures
        ({
            let at_root = RootEntrance::LookingAtRoot;
            let at_marker = at_root.after(EntranceEvent::Seen(root));
            let at_lock = at_marker.after(EntranceEvent::Seen(marker));
            let opening = at_lock.after(EntranceEvent::Seen(lock));
            let comparing = opening.after(EntranceEvent::Performed(opened));
            let locking = comparing.after(EntranceEvent::Compared(compared));
            let end = locking.after(EntranceEvent::LockAttempted(attempt)).after(
                EntranceEvent::SyncAttempted(sync),
            );
            let unavailable = RootEntrance::Refused(DurableOpenError::StorageUnavailable);
            &&& at_root.spec_action() == EntranceAction::LookUp(StoreLocation::Root)
            &&& if !scan_laws::is_private_directory(root) {
                at_marker == unavailable
            } else {
                &&& at_marker.spec_action() == EntranceAction::LookUp(StoreLocation::FormatMarker)
                &&& if marker == Err::<NodeMetadata, LookupError>(
                    LookupError::Unreadable,
                ) {
                    at_lock == unavailable
                } else {
                    let marked = marker is Ok;
                    &&& at_lock.spec_action() == EntranceAction::LookUp(StoreLocation::LockFile)
                    &&& match lock {
                        Err(LookupError::Unreadable) => opening == unavailable,
                        Err(LookupError::NotFound) => if marked {
                            opening == RootEntrance::Refused(DurableOpenError::DurableStateCorrupt)
                        } else {
                            opening.spec_action() == EntranceAction::CreateLockFile
                        },
                        Ok(_) => if !scan_laws::is_private_file(lock) {
                            opening == RootEntrance::Refused(
                                if marked {
                                    DurableOpenError::DurableStateCorrupt
                                } else {
                                    DurableOpenError::UnsupportedStoreFormat
                                },
                            )
                        } else {
                            &&& opening.spec_action() == EntranceAction::OpenLockFile
                            &&& !opened ==> comparing == unavailable
                            &&& opened ==> {
                                &&& comparing.spec_action() == EntranceAction::CompareLockFile
                                &&& end == entered_with(marked, compared, attempt, sync)
                            }
                        },
                    }
                }
            }
        }),
{
}

/// A root that is not there is created, privately, and a root without a lock file gets one.
pub proof fn law_entering_a_new_root(
    created: bool,
    root: Lookup,
    lock_created: bool,
    handle: Lookup,
    compared: ComparedFile,
    attempt: LockAttempt,
    sync: SyncAttempt,
)
    ensures
        ({
            let absent = Err::<NodeMetadata, LookupError>(LookupError::NotFound);
            let creating = RootEntrance::LookingAtRoot.after(EntranceEvent::Seen(absent));
            let looking = creating.after(EntranceEvent::Performed(created));
            let at_marker = looking.after(EntranceEvent::Seen(root));
            let locking = at_marker.after(EntranceEvent::Seen(absent)).after(
                EntranceEvent::Seen(absent),
            );
            let inspecting = locking.after(EntranceEvent::Performed(lock_created));
            let comparing = inspecting.after(EntranceEvent::Seen(handle));
            let end = comparing.after(EntranceEvent::Compared(compared)).after(
                EntranceEvent::LockAttempted(attempt),
            ).after(EntranceEvent::SyncAttempted(sync));
            let unavailable = RootEntrance::Refused(DurableOpenError::StorageUnavailable);
            &&& RootEntrance::LookingAtRoot.after(
                EntranceEvent::Seen(Err(LookupError::Unreadable)),
            ) == unavailable
            &&& creating.spec_action() == EntranceAction::CreateRoot
            &&& !created ==> looking == unavailable
            &&& created ==> {
                &&& looking.spec_action() == EntranceAction::LookUp(StoreLocation::Root)
                &&& !scan_laws::is_private_directory(root) ==> at_marker == unavailable
                &&& scan_laws::is_private_directory(root) ==> {
                    &&& at_marker.spec_action() == EntranceAction::LookUp(
                        StoreLocation::FormatMarker,
                    )
                    &&& locking.spec_action() == EntranceAction::CreateLockFile
                    &&& !lock_created ==> inspecting == unavailable
                    &&& lock_created ==> {
                        let fresh = handle matches Ok(metadata) && metadata.mode % 4096 == 384;
                        &&& inspecting.spec_action() == EntranceAction::InspectLockFile
                        &&& !fresh ==> comparing == unavailable
                        &&& fresh ==> {
                            &&& comparing.spec_action() == EntranceAction::CompareLockFile
                            &&& end == entered_with(false, compared, attempt, sync)
                        }
                    }
                }
            }
        }),
{
}

/// The lock is asked for once the lock file was compared, and the root is synced once it was acquired;
/// an entrance that ended stays as it is.
pub proof fn law_an_entrance_ends(
    compared: ComparedFile,
    event: EntranceEvent,
    sync: DirectorySync,
    error: DurableOpenError,
)
    requires
        scan_laws::is_private_file(compared.handle),
        scan_laws::is_private_file(compared.path),
        compared.handle->Ok_0.identity == compared.path->Ok_0.identity,
    ensures
        forall|marked: bool|
            (#[trigger] (RootEntrance::ComparingLock { marked }).after(
                EntranceEvent::Compared(compared),
            )).spec_action() == EntranceAction::LockExclusively,
        RootEntrance::Locking.after(
            EntranceEvent::LockAttempted(LockAttempt::Acquired),
        ).spec_action() == EntranceAction::SyncRoot,
        RootEntrance::Entered(sync).after(event) == RootEntrance::Entered(sync),
        RootEntrance::Refused(error).after(event) == RootEntrance::Refused(error),
        RootEntrance::Entered(sync).spec_action() == EntranceAction::Finished,
        RootEntrance::Refused(error).spec_action() == EntranceAction::Finished,
{
}

/// Whether a directory of a new store holds nothing, or of the reservations nothing but their two
/// private collections.
pub open spec fn holds_nothing_yet(
    directory: ScaffoldDirectory,
    listing: DirectoryListing<NamedEntryObservation>,
) -> bool {
    let entries = listing.entries@;
    &&& listing.opened is Ok && !listing.interrupted
    &&& if directory == ScaffoldDirectory::Reservations {
        &&& entries.len() <= 2
        &&& forall|i: int|
            0 <= i < entries.len() ==> ((#[trigger] entries[i]).name@ == utf8::encode_utf8(
                "agents"@,
            ) || entries[i].name@ == utf8::encode_utf8("sessions"@))
                && scan_laws::is_private_directory(entries[i].metadata)
    } else {
        entries.len() == 0
    }
}

proof fn lemma_markerless_reservations(entries: Seq<NamedEntryObservation>)
    ensures
        bootstrap::markerless_reservations_outcome(entries) is Ok <==> (forall|i: int|
            0 <= i < entries.len() ==> ((#[trigger] entries[i]).name@ == utf8::encode_utf8(
                "agents"@,
            ) || entries[i].name@ == utf8::encode_utf8("sessions"@))
                && scan_laws::is_private_directory(entries[i].metadata)),
    decreases entries.len(),
{
    if entries.len() > 0 {
        let front = entries.drop_last();
        lemma_markerless_reservations(front);
        assert(entries[entries.len() - 1] == entries.last());
        assert forall|i: int| 0 <= i < front.len() implies front[i] == entries[i] by {}
        if bootstrap::markerless_reservations_outcome(entries) is Ok {
            assert forall|i: int| 0 <= i < entries.len() implies ((#[trigger] entries[i]).name@
                == utf8::encode_utf8("agents"@) || entries[i].name@ == utf8::encode_utf8(
                "sessions"@,
            )) && scan_laws::is_private_directory(entries[i].metadata) by {
                if i < front.len() {
                    assert(front[i] == entries[i]);
                }
            }
        }
    }
}

/// Where a directory of a new store lies.
pub open spec fn place_of(directory: ScaffoldDirectory) -> StoreLocation {
    match directory {
        ScaffoldDirectory::Reservations => StoreLocation::Reservations,
        ScaffoldDirectory::AgentReservations => StoreLocation::ReservationCollection(
            EntityKind::Agent,
        ),
        ScaffoldDirectory::SessionReservations => StoreLocation::ReservationCollection(
            EntityKind::Session,
        ),
        ScaffoldDirectory::Agents => StoreLocation::EntityCollection(EntityKind::Agent),
        ScaffoldDirectory::Sessions => StoreLocation::EntityCollection(EntityKind::Session),
    }
}

/// What follows a directory of a new store: the next directory, and behind the last one the marker.
pub open spec fn next_behind(directory: ScaffoldDirectory) -> ScaffoldAction {
    match directory {
        ScaffoldDirectory::Reservations => ScaffoldAction::LookUp(
            StoreLocation::ReservationCollection(EntityKind::Agent),
        ),
        ScaffoldDirectory::AgentReservations => ScaffoldAction::LookUp(
            StoreLocation::ReservationCollection(EntityKind::Session),
        ),
        ScaffoldDirectory::SessionReservations => ScaffoldAction::LookUp(
            StoreLocation::EntityCollection(EntityKind::Agent),
        ),
        ScaffoldDirectory::Agents => ScaffoldAction::LookUp(
            StoreLocation::EntityCollection(EntityKind::Session),
        ),
        ScaffoldDirectory::Sessions => ScaffoldAction::CreateFile(StoreLocation::FormatMarker),
    }
}

/// A directory of a new store that is already there is kept if it is private and holds nothing yet;
/// then the next one follows. What holds anything else is another format.
pub proof fn law_an_existing_directory_is_kept(
    directory: ScaffoldDirectory,
    lookup: Lookup,
    listing: DirectoryListing<NamedEntryObservation>,
    sync: DirectorySync,
)
    requires
        lookup is Ok,
    ensures
        ({
            let looking = Scaffold::Directory { directory, phase: DirectoryPhase::Looking };
            let listed = looking.after(ScaffoldEvent::Seen(lookup), sync);
            let end = listed.after(ScaffoldEvent::Listed(listing), sync);
            &&& looking.spec_action() == ScaffoldAction::LookUp(place_of(directory))
            &&& !scan_laws::is_private_directory(lookup) ==> listed == Scaffold::Refused(
                DurableOpenError::UnsupportedStoreFormat,
            )
            &&& scan_laws::is_private_directory(lookup) ==> {
                &&& listed.spec_action() == ScaffoldAction::List(place_of(directory))
                &&& holds_nothing_yet(directory, listing) ==> end.spec_action() == next_behind(
                    directory,
                ) && end !is Refused
                &&& !holds_nothing_yet(directory, listing) ==> end is Refused
                &&& directory != ScaffoldDirectory::Reservations && listing.opened is Ok
                    && listing.entries@.len() > 0 ==> end == Scaffold::Refused(
                    DurableOpenError::UnsupportedStoreFormat,
                )
            }
        }),
{
    lemma_markerless_reservations(listing.entries@);
}

/// A directory of a new store that is not there is created, must be private, and is made durable in the
/// directory above where that is supported; then it is looked into as if it had been there.
pub proof fn law_a_missing_directory_is_created(
    directory: ScaffoldDirectory,
    created: bool,
    lookup: Lookup,
    synced: bool,
    sync: DirectorySync,
)
    ensures
        ({
            let absent = Err::<NodeMetadata, LookupError>(LookupError::NotFound);
            let looking = Scaffold::Directory { directory, phase: DirectoryPhase::Looking };
            let creating = looking.after(ScaffoldEvent::Seen(absent), sync);
            let made = creating.after(ScaffoldEvent::Performed(created), sync);
            let seen = made.after(ScaffoldEvent::Seen(lookup), sync);
            let durable = if sync == DirectorySync::Supported {
                seen.after(ScaffoldEvent::Performed(synced), sync)
            } else {
                seen
            };
            let unavailable = Scaffold::Refused(DurableOpenError::StorageUnavailable);
            let fresh = lookup matches Ok(metadata) && metadata.mode % 4096 == 448;
            &&& looking.after(ScaffoldEvent::Seen(Err(LookupError::Unreadable)), sync)
                == unavailable
            &&& creating.spec_action() == ScaffoldAction::CreateDirectory(place_of(directory))
            &&& !created ==> made == unavailable
            &&& created ==> {
                &&& made.spec_action() == ScaffoldAction::LookUp(place_of(directory))
                &&& !fresh ==> seen == unavailable
                &&& fresh && sync == DirectorySync::Supported ==> {
                    &&& seen.spec_action() == ScaffoldAction::SyncDirectory(
                        place_of(directory).spec_parent(),
                    )
                    &&& !synced ==> durable == unavailable
                }
                &&& fresh && (synced || sync != DirectorySync::Supported) ==> durable == (
                Scaffold::Directory { directory, phase: DirectoryPhase::Listing })
            }
        }),
{
}

/// A new store starts with its reservations, and is complete once its marker was created, found
/// private, made durable, and read back empty, before and after its root was made durable.
pub proof fn law_the_marker_completes_a_store(
    handle: Lookup,
    first: ZeroFileObservation,
    second: ZeroFileObservation,
    sync: DirectorySync,
)
    ensures
        Scaffold::start().spec_action() == ScaffoldAction::LookUp(StoreLocation::Reservations),
        ({
            let created = Scaffold::Marker(MarkerPhase::Creating).after(
                ScaffoldEvent::Performed(true),
                sync,
            );
            let inspected = created.after(ScaffoldEvent::Seen(handle), sync);
            let synced = inspected.after(ScaffoldEvent::Performed(true), sync);
            let checked = synced.after(ScaffoldEvent::Read(first), sync);
            let durable = if sync == DirectorySync::Supported {
                checked.after(ScaffoldEvent::Performed(true), sync)
            } else {
                checked
            };
            let end = durable.after(ScaffoldEvent::Read(second), sync);
            let private = handle matches Ok(metadata) && metadata.mode % 4096 == 384;
            &&& created.spec_action() == ScaffoldAction::InspectFile(StoreLocation::FormatMarker)
            &&& !private ==> inspected == Scaffold::Refused(DurableOpenError::StorageUnavailable)
            &&& private ==> {
                &&& inspected.spec_action() == ScaffoldAction::SyncFile(StoreLocation::FormatMarker)
                &&& synced.spec_action() == ScaffoldAction::ReadEmpty(StoreLocation::FormatMarker)
                &&& first.outcome() is Ok && sync == DirectorySync::Supported
                    ==> checked.spec_action() == ScaffoldAction::SyncDirectory(StoreLocation::Root)
                &&& first.outcome() is Ok ==> durable.spec_action() == ScaffoldAction::ReadEmpty(
                    StoreLocation::FormatMarker,
                )
                &&& end == Scaffold::Completed <==> first.outcome() is Ok && second.outcome() is Ok
                &&& first.outcome() matches Err(error) ==> end == Scaffold::Refused(error)
                &&& first.outcome() is Ok ==> (second.outcome() matches Err(error) ==> end
                    == Scaffold::Refused(error))
            }
        }),
        forall|phase: MarkerPhase|
            phase != MarkerPhase::Inspecting && phase != MarkerPhase::Checking && phase
                != MarkerPhase::CheckingAgain ==> #[trigger] Scaffold::Marker(phase).after(
                ScaffoldEvent::Performed(false),
                sync,
            ) == Scaffold::Refused(DurableOpenError::StorageUnavailable),
{
}

/// Whether an entry may stand in a root that is not marked yet.
pub open spec fn is_unmarked_entry(entry: RootEntryObservation) -> bool {
    let name = entry.name@;
    ||| name == utf8::encode_utf8(".minicore.lock"@) && scan_laws::is_private_file(entry.metadata)
    ||| (name == utf8::encode_utf8("reservations"@) || name == utf8::encode_utf8("agents"@) || name
        == utf8::encode_utf8("sessions"@)) && scan_laws::is_private_directory(entry.metadata)
}

proof fn lemma_markerless_root(entries: Seq<RootEntryObservation>)
    ensures
        bootstrap::markerless_root_outcome(entries) is Ok <==> (forall|i: int|
            0 <= i < entries.len() ==> is_unmarked_entry(#[trigger] entries[i])),
    decreases entries.len(),
{
    if entries.len() > 0 {
        let front = entries.drop_last();
        lemma_markerless_root(front);
        root_laws::lemma_root_names_differ();
        assert(entries[entries.len() - 1] == entries.last());
        assert forall|i: int| 0 <= i < front.len() implies front[i] == entries[i] by {}
        if bootstrap::markerless_root_outcome(entries) is Ok {
            assert forall|i: int| 0 <= i < entries.len() implies is_unmarked_entry(
                #[trigger] entries[i],
            ) by {
                if i < front.len() {
                    assert(front[i] == entries[i]);
                }
            }
        }
    }
}

/// A locked root of at most five entries is scanned if it lists the marker, whatever else it lists. One
/// without it is completed if everything in it belongs to a new store, and refused otherwise.
pub proof fn law_a_locked_root_is_scanned_or_completed(
    sync: DirectorySync,
    listing: DirectoryListing<RootEntryObservation>,
    caps: RecoveryCaps,
    limits: StoreLimits,
)
    ensures
        ({
            let entries = listing.entries@;
            let after = RootOpeningView::Listing(sync).after(
                OpeningEvent::Listed(listing),
                caps,
                limits,
            );
            let listed = listing.opened is Ok && !listing.interrupted && entries.len() <= 5;
            &&& RootOpeningView::Listing(sync).action() == OpeningAction::ListRoot
            &&& !listed ==> after is Finished && after->Finished_0 is Err
            &&& listing.opened is Ok && entries.len() > 5 ==> after == RootOpeningView::Finished(
                Err(DurableOpenError::DurableStateTooLarge),
            )
            &&& listed && root_laws::root_has(entries, "MINICORE_STORE_V1") ==> after == (
            RootOpeningView::Scanning { sync, entries })
            &&& listed && !root_laws::root_has(entries, "MINICORE_STORE_V1") ==> {
                let new = forall|i: int|
                    0 <= i < entries.len() ==> is_unmarked_entry(#[trigger] entries[i]);
                &&& new ==> after == (RootOpeningView::Completing {
                    sync,
                    scaffold: Scaffold::start(),
                })
                &&& !new ==> after is Finished && after->Finished_0 is Err
            }
        }),
{
    lemma_markerless_root(listing.entries@);
    assert(crate::root_scan::root_lists(listing.entries@, "MINICORE_STORE_V1")
        == root_laws::root_has(listing.entries@, "MINICORE_STORE_V1"));
}

/// A locked root leads on to its listing; a completed one is an empty store; a refusal on the way ends
/// the opening with its own error.
pub proof fn law_the_way_into_a_store(
    entrance: RootEntrance,
    event: EntranceEvent,
    state: Scaffold,
    step: ScaffoldEvent,
    sync: DirectorySync,
    caps: RecoveryCaps,
    limits: StoreLimits,
)
    ensures
        RootOpeningView::Entering(entrance).action() == OpeningAction::Enter(
            entrance.spec_action(),
        ),
        RootOpeningView::Entering(entrance).after(OpeningEvent::Entrance(event), caps, limits)
            == match entrance.after(event) {
            RootEntrance::Entered(sync) => RootOpeningView::Listing(sync),
            RootEntrance::Refused(error) => RootOpeningView::Finished(Err(error)),
            other => RootOpeningView::Entering(other),
        },
        (RootOpeningView::Completing { sync, scaffold: state }).action()
            == OpeningAction::Complete(state.spec_action()),
        (RootOpeningView::Completing { sync, scaffold: state }).after(
            OpeningEvent::Completion(step),
            caps,
            limits,
        ) == match state.after(step, sync) {
            Scaffold::Completed => RootOpeningView::Finished(
                Ok(
                    OpenRootView {
                        agents: Map::empty(),
                        sessions: Map::empty(),
                        agent_reservations: Set::empty(),
                        session_reservations: Set::empty(),
                        directory_sync: sync,
                    },
                ),
            ),
            Scaffold::Refused(error) => RootOpeningView::Finished(Err(error)),
            other => RootOpeningView::Completing { sync, scaffold: other },
        },
{
}

/// The store that a recovery opens: exactly its Agents, its Sessions and its reserved identities.
pub open spec fn opened_as(candidate: RecoveryCandidateView, sync: DirectorySync) -> RootOpeningView {
    RootOpeningView::Finished(
        Ok(
            OpenRootView {
                agents: candidate.agents,
                sessions: candidate.sessions,
                agent_reservations: candidate.agent_reservations.dom(),
                session_reservations: candidate.session_reservations.dom(),
                directory_sync: sync,
            },
        ),
    )
}

/// A recovery without a cleanup opens the store at once; one with a cleanup looks again first, at
/// exactly what the cleanup is about.
pub proof fn law_a_recovery_opens_or_cleans_up(
    sync: DirectorySync,
    candidate: RecoveryCandidateView,
)
    ensures
        match candidate.cleanup {
            None => RootOpeningView::recovered(sync, candidate) == opened_as(candidate, sync),
            Some(cleanup) => {
                let next = RootOpeningView::recovered(sync, candidate);
                &&& next == (RootOpeningView::Revalidating { sync, candidate, cleanup })
                &&& next.action() == match cleanup {
                    DeferredCleanup::TrailingGeneration(plan) => OpeningAction::ObserveGeneration(
                        plan,
                    ),
                    DeferredCleanup::UnpublishedEntity(plan) => OpeningAction::ObserveEntity(plan),
                }
            },
        },
{
}

/// One step of a removal: a success leads on to the next one; a failure ends the removal, except that
/// of a directory, which is then looked up and counts as removed if it is gone.
pub proof fn law_one_step_of_a_removal(steps: Seq<CleanupStep>, position: nat, lookup: Lookup)
    requires
        position < steps.len(),
    ensures
        ({
            let run = CleanupRunView { steps, position, phase: CleanupPhase::Performing };
            let next = CleanupRunView {
                steps,
                position: position + 1,
                phase: CleanupPhase::Performing,
            };
            let failed = run.after(CleanupEvent::Failed);
            &&& run.action() == CleanupAction::Perform(steps[position as int])
            &&& run.after(CleanupEvent::Succeeded) == next
            &&& match steps[position as int] {
                CleanupStep::RemoveDirectory(location) => {
                    &&& failed.action() == CleanupAction::Inspect(location)
                    &&& lookup == Err::<NodeMetadata, LookupError>(
                        LookupError::NotFound,
                    ) ==> failed.after(CleanupEvent::Seen(lookup)) == next
                    &&& lookup != Err::<NodeMetadata, LookupError>(
                        LookupError::NotFound,
                    ) ==> failed.after(CleanupEvent::Seen(lookup)).action()
                        == CleanupAction::Finished(Err(DurableOpenError::StorageUnavailable))
                },
                _ => failed.action() == CleanupAction::Finished(
                    Err(DurableOpenError::StorageUnavailable),
                ),
            }
        }),
{
}

/// A removal that is over is over: with success exactly at the end of its steps.
pub proof fn law_the_end_of_a_removal(steps: Seq<CleanupStep>, event: CleanupEvent)
    ensures
        ({
            let run = CleanupRunView {
                steps,
                position: steps.len(),
                phase: CleanupPhase::Performing,
            };
            &&& run.action() == CleanupAction::Finished(Ok(()))
            &&& run.after(event) == run
        }),
{
}

/// A cleanup that the second look allows opens the store once every step succeeded, with exactly what
/// was recovered; one that it does not allow ends the opening with the error of that look.
pub proof fn law_an_allowed_cleanup_opens_the_store(
    sync: DirectorySync,
    candidate: RecoveryCandidateView,
    trailing: cleanup_plan::DeferredGenerationCleanup,
    generation: cleanup_plan::GenerationCleanupObservation,
    whole: cleanup_plan::DeferredUnpublishedEntityCleanup,
    entity: cleanup_plan::EntityCleanupObservation,
    caps: RecoveryCaps,
    limits: StoreLimits,
)
    ensures
        ({
            let state = RootOpeningView::Revalidating {
                sync,
                candidate,
                cleanup: DeferredCleanup::TrailingGeneration(trailing),
            };
            let after = state.after(OpeningEvent::GenerationSeen(generation), caps, limits);
            match cleanup_plan::generation_revalidation(trailing, generation, limits) {
                Err(error) => after == RootOpeningView::Finished(Err(error)),
                Ok(contents) => after == (RootOpeningView::Cleaning {
                    sync,
                    candidate,
                    run: CleanupRunView {
                        steps: cleanup_run::generation_steps(trailing, contents, sync),
                        position: 0,
                        phase: CleanupPhase::Performing,
                    },
                }),
            }
        }),
        ({
            let state = RootOpeningView::Revalidating {
                sync,
                candidate,
                cleanup: DeferredCleanup::UnpublishedEntity(whole),
            };
            let after = state.after(OpeningEvent::EntitySeen(entity), caps, limits);
            match cleanup_plan::entity_revalidation(whole, entity, limits) {
                Err(error) => after == RootOpeningView::Finished(Err(error)),
                Ok(()) => after == (RootOpeningView::Cleaning {
                    sync,
                    candidate,
                    run: CleanupRunView {
                        steps: cleanup_run::entity_steps(whole, sync),
                        position: 0,
                        phase: CleanupPhase::Performing,
                    },
                }),
            }
        }),
{
    let contents = cleanup_plan::generation_revalidation(trailing, generation, limits)->Ok_0;
    assert(cleanup_run::generation_steps(trailing, contents, sync).len() > 0);
    assert(cleanup_run::entity_steps(whole, sync).len() > 0);
}

/// The last step of a cleanup opens the store; a step that fails for good ends the opening, and the
/// store stays closed.
pub proof fn law_the_end_of_a_cleanup(
    sync: DirectorySync,
    candidate: RecoveryCandidateView,
    run: CleanupRunView,
    event: CleanupEvent,
    caps: RecoveryCaps,
    limits: StoreLimits,
)
    ensures
        ({
            let state = RootOpeningView::Cleaning { sync, candidate, run };
            let after = state.after(OpeningEvent::Removal(event), caps, limits);
            &&& state.action() == OpeningAction::Remove(run.action())
            &&& match run.after(event).action() {
                CleanupAction::Finished(Ok(())) => after == opened_as(candidate, sync),
                CleanupAction::Finished(Err(error)) => after == RootOpeningView::Finished(
                    Err(error),
                ),
                _ => after == (RootOpeningView::Cleaning {
                    sync,
                    candidate,
                    run: run.after(event),
                }),
            }
        }),
{
}

/// The first entry of an unmarked root that does not belong to a new store decides: another name, another
/// kind and a node that others may use are another format; what cannot be looked up is unavailable.
pub proof fn law_the_first_foreign_entry_decides(
    before: Seq<RootEntryObservation>,
    entry: RootEntryObservation,
)
    ensures
        bootstrap::markerless_root_outcome(before) is Err ==> bootstrap::markerless_root_outcome(
            before.push(entry),
        ) == bootstrap::markerless_root_outcome(before),
        bootstrap::markerless_root_outcome(before) is Ok ==> {
            let outcome = bootstrap::markerless_root_outcome(before.push(entry));
            let name = entry.name@;
            let known = name == utf8::encode_utf8(".minicore.lock"@) || name == utf8::encode_utf8(
                "reservations"@,
            ) || name == utf8::encode_utf8("agents"@) || name == utf8::encode_utf8("sessions"@);
            outcome == if is_unmarked_entry(entry) {
                Ok::<(), DurableOpenError>(())
            } else if known && entry.metadata is Err {
                Err(DurableOpenError::StorageUnavailable)
            } else {
                Err(DurableOpenError::UnsupportedStoreFormat)
            }
        },
{
    assert(before.push(entry).drop_last() =~= before);
    root_laws::lemma_root_names_differ();
}

/// The first entry of the reservations of a new store that is not one of its two collections decides in
/// the same way.
pub proof fn law_the_first_foreign_reservation_decides(
    before: Seq<NamedEntryObservation>,
    entry: NamedEntryObservation,
    listing: DirectoryListing<NamedEntryObservation>,
)
    ensures
        bootstrap::markerless_reservations_outcome(before) is Err
            ==> bootstrap::markerless_reservations_outcome(before.push(entry))
            == bootstrap::markerless_reservations_outcome(before),
        bootstrap::markerless_reservations_outcome(before) is Ok ==> {
            let outcome = bootstrap::markerless_reservations_outcome(before.push(entry));
            let known = entry.name@ == utf8::encode_utf8("agents"@) || entry.name@
                == utf8::encode_utf8("sessions"@);
            outcome == if known && scan_laws::is_private_directory(entry.metadata) {
                Ok::<(), DurableOpenError>(())
            } else if known && entry.metadata is Err {
                Err(DurableOpenError::StorageUnavailable)
            } else {
                Err(DurableOpenError::UnsupportedStoreFormat)
            }
        },
        bootstrap::reservations_outcome(listing) == match listing.bounded(2usize) {
            Ok(entries) => bootstrap::markerless_reservations_outcome(entries),
            Err(error) => Err::<(), DurableOpenError>(error),
        },
        scaffold::content_check(ScaffoldDirectory::Reservations, listing)
            == bootstrap::reservations_outcome(listing),
{
    assert(before.push(entry).drop_last() =~= before);
}

} // verus!
