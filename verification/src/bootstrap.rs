//! Entering a store root: the root directory, the lock, and the scaffold of a new store.

use crate::cleanup_run::DirectorySync;
use crate::collection_scan::NamedEntryObservation;
use crate::listing;
use crate::listing::{
    entry_has_name, read_entries_bounded, DirectoryListing, AGENTS_DIRECTORY,
    LOCK_FILE, RESERVATIONS_DIRECTORY, RESERVATIONS_ENTRY_CAP, SESSIONS_DIRECTORY,
};
use crate::location::StoreLocation;
use crate::open_error::DurableOpenError;
use crate::physical;
use crate::physical::{
    metadata_without_following, validate_directory_entry, validate_existing_regular_file,
    validate_new_file_mode, validate_regular_entry_path, validate_root_directory,
    validate_same_file_identity, Lookup, LookupError,
};
use crate::root_scan::RootEntryObservation;
use vstd::prelude::*;

verus! {

/// What came of the attempt to lock the lock file.
#[derive(Clone, Copy, Debug, PartialEq, Eq, Structural)]
pub enum LockAttempt {
    Acquired,
    /// Someone else holds the lock.
    Held,
    /// The platform reported the lock as one to wait for.
    WouldBlock,
    Failed,
}

/// What came of the attempt to make the root directory durable.
#[derive(Clone, Copy, Debug, PartialEq, Eq, Structural)]
pub enum SyncAttempt {
    Synced,
    Unsupported,
    Failed,
}

/// A file seen through its handle and at its path.
#[derive(Clone, Copy)]
pub struct ComparedFile {
    pub handle: Lookup,
    pub path: Lookup,
}

impl ComparedFile {
    /// Whether handle and path show the same private file.
    pub open spec fn outcome(self, error: DurableOpenError) -> Result<(), DurableOpenError> {
        match (self.handle, self.path) {
            (Ok(handle), Ok(path)) => if !handle.is_private_file() || !path.is_private_file() {
                Err(error)
            } else {
                physical::checked(
                    handle.identity == path.identity,
                    DurableOpenError::StorageUnavailable,
                )
            },
            _ => Err(DurableOpenError::StorageUnavailable),
        }
    }
}

pub fn validate_open_regular_file(compared: ComparedFile, error: DurableOpenError) -> (result: Result<
    (),
    DurableOpenError,
>)
    ensures
        result == compared.outcome(error),
{
    let handle = match metadata_without_following(compared.handle) {
        Ok(metadata) => metadata,
        Err(error) => return Err(error),
    };
    let path = match metadata_without_following(compared.path) {
        Ok(metadata) => metadata,
        Err(error) => return Err(error),
    };
    match validate_existing_regular_file(&handle, error) {
        Ok(()) => {},
        Err(error) => return Err(error),
    }
    match validate_existing_regular_file(&path, error) {
        Ok(()) => {},
        Err(error) => return Err(error),
    }
    validate_same_file_identity(&handle, &path)
}

/// Whether the format marker was there before the lock was taken.
pub fn format_marker_exists(lookup: Lookup) -> (result: Result<bool, DurableOpenError>)
    ensures
        result == marker_presence(lookup),
{
    match lookup {
        Ok(_) => Ok(true),
        Err(LookupError::NotFound) => Ok(false),
        Err(LookupError::Unreadable) => Err(DurableOpenError::StorageUnavailable),
    }
}

pub open spec fn marker_presence(lookup: Lookup) -> Result<bool, DurableOpenError> {
    match lookup {
        Ok(_) => Ok(true),
        Err(LookupError::NotFound) => Ok(false),
        Err(LookupError::Unreadable) => Err(DurableOpenError::StorageUnavailable),
    }
}

/// How a lock file of the wrong shape is reported: a marked root with one is corrupt, any other root
/// is no store.
pub open spec fn lock_error(marked: bool) -> DurableOpenError {
    if marked {
        DurableOpenError::DurableStateCorrupt
    } else {
        DurableOpenError::UnsupportedStoreFormat
    }
}

fn lock_file_error(marked: bool) -> (error: DurableOpenError)
    ensures
        error == lock_error(marked),
{
    if marked {
        DurableOpenError::DurableStateCorrupt
    } else {
        DurableOpenError::UnsupportedStoreFormat
    }
}

/// Whether the platform can make directories durable.
pub fn classify_directory_sync(attempt: SyncAttempt) -> (result: Result<
    DirectorySync,
    DurableOpenError,
>)
    ensures
        result == sync_class(attempt),
{
    match attempt {
        SyncAttempt::Synced => Ok(DirectorySync::Supported),
        SyncAttempt::Unsupported => Ok(DirectorySync::Unsupported),
        SyncAttempt::Failed => Err(DurableOpenError::StorageUnavailable),
    }
}

pub open spec fn sync_class(attempt: SyncAttempt) -> Result<DirectorySync, DurableOpenError> {
    match attempt {
        SyncAttempt::Synced => Ok(DirectorySync::Supported),
        SyncAttempt::Unsupported => Ok(DirectorySync::Unsupported),
        SyncAttempt::Failed => Err(DurableOpenError::StorageUnavailable),
    }
}

/// The way into a root, up to its lock. Each state but the last two waits for one answer.
#[derive(Clone, Copy, PartialEq, Eq, Structural)]
pub enum RootEntrance {
    LookingAtRoot,
    CreatingRoot,
    LookingAtNewRoot,
    LookingForMarker,
    LookingForLock { marked: bool },
    OpeningLock { marked: bool },
    CreatingLock,
    InspectingNewLock,
    ComparingLock { marked: bool },
    Locking,
    ClassifyingSync,
    /// The root is locked.
    Entered(DirectorySync),
    Refused(DurableOpenError),
}

/// What the way into a root asks for next.
#[derive(Clone, Copy, PartialEq, Eq, Structural)]
pub enum EntranceAction {
    LookUp(StoreLocation),
    CreateRoot,
    OpenLockFile,
    CreateLockFile,
    /// Looks at the open lock file through its handle.
    InspectLockFile,
    /// Looks at the open lock file through its handle, and then at its path.
    CompareLockFile,
    LockExclusively,
    SyncRoot,
    Finished,
}

/// What came of the last action.
#[derive(Clone, Copy)]
pub enum EntranceEvent {
    Seen(Lookup),
    Performed(bool),
    Compared(ComparedFile),
    LockAttempted(LockAttempt),
    SyncAttempted(SyncAttempt),
}

impl RootEntrance {
    pub open spec fn spec_action(self) -> EntranceAction {
        match self {
            RootEntrance::LookingAtRoot => EntranceAction::LookUp(StoreLocation::Root),
            RootEntrance::CreatingRoot => EntranceAction::CreateRoot,
            RootEntrance::LookingAtNewRoot => EntranceAction::LookUp(StoreLocation::Root),
            RootEntrance::LookingForMarker => EntranceAction::LookUp(StoreLocation::FormatMarker),
            RootEntrance::LookingForLock { .. } => EntranceAction::LookUp(StoreLocation::LockFile),
            RootEntrance::OpeningLock { .. } => EntranceAction::OpenLockFile,
            RootEntrance::CreatingLock => EntranceAction::CreateLockFile,
            RootEntrance::InspectingNewLock => EntranceAction::InspectLockFile,
            RootEntrance::ComparingLock { .. } => EntranceAction::CompareLockFile,
            RootEntrance::Locking => EntranceAction::LockExclusively,
            RootEntrance::ClassifyingSync => EntranceAction::SyncRoot,
            RootEntrance::Entered(_) => EntranceAction::Finished,
            RootEntrance::Refused(_) => EntranceAction::Finished,
        }
    }

    /// Goes on where a check passed, or refuses.
    pub open spec fn when(check: Result<(), DurableOpenError>, next: Self) -> Self {
        match check {
            Ok(()) => next,
            Err(error) => RootEntrance::Refused(error),
        }
    }

    /// The next state. An answer that does not belong to the question leaves the storage unavailable.
    pub open spec fn after(self, event: EntranceEvent) -> Self {
        let unavailable = DurableOpenError::StorageUnavailable;
        match (self, event) {
            (RootEntrance::Entered(_), _) => self,
            (RootEntrance::Refused(_), _) => self,
            (RootEntrance::LookingAtRoot, EntranceEvent::Seen(lookup)) => match lookup {
                Ok(metadata) => Self::when(
                    physical::checked(metadata.is_private_directory(), unavailable),
                    RootEntrance::LookingForMarker,
                ),
                Err(LookupError::NotFound) => RootEntrance::CreatingRoot,
                Err(LookupError::Unreadable) => RootEntrance::Refused(unavailable),
            },
            (RootEntrance::CreatingRoot, EntranceEvent::Performed(succeeded)) => Self::when(
                physical::checked(succeeded, unavailable),
                RootEntrance::LookingAtNewRoot,
            ),
            (RootEntrance::LookingAtNewRoot, EntranceEvent::Seen(lookup)) => Self::when(
                physical::directory_entry(lookup, unavailable),
                RootEntrance::LookingForMarker,
            ),
            (RootEntrance::LookingForMarker, EntranceEvent::Seen(lookup)) => match marker_presence(
                lookup,
            ) {
                Ok(marked) => RootEntrance::LookingForLock { marked },
                Err(error) => RootEntrance::Refused(error),
            },
            (RootEntrance::LookingForLock { marked }, EntranceEvent::Seen(lookup)) => match lookup {
                Ok(metadata) => Self::when(
                    physical::checked(metadata.is_private_file(), lock_error(marked)),
                    RootEntrance::OpeningLock { marked },
                ),
                Err(LookupError::NotFound) => if marked {
                    RootEntrance::Refused(DurableOpenError::DurableStateCorrupt)
                } else {
                    RootEntrance::CreatingLock
                },
                Err(LookupError::Unreadable) => RootEntrance::Refused(unavailable),
            },
            (RootEntrance::OpeningLock { marked }, EntranceEvent::Performed(succeeded)) =>
                Self::when(
                physical::checked(succeeded, unavailable),
                RootEntrance::ComparingLock { marked },
            ),
            (RootEntrance::CreatingLock, EntranceEvent::Performed(succeeded)) => Self::when(
                physical::checked(succeeded, unavailable),
                RootEntrance::InspectingNewLock,
            ),
            (RootEntrance::InspectingNewLock, EntranceEvent::Seen(handle)) => Self::when(
                physical::checked(physical::has_new_file_mode(handle), unavailable),
                RootEntrance::ComparingLock { marked: false },
            ),
            (RootEntrance::ComparingLock { marked }, EntranceEvent::Compared(compared)) =>
                Self::when(compared.outcome(lock_error(marked)), RootEntrance::Locking),
            (RootEntrance::Locking, EntranceEvent::LockAttempted(attempt)) => match attempt {
                LockAttempt::Acquired => RootEntrance::ClassifyingSync,
                LockAttempt::Held => RootEntrance::Refused(DurableOpenError::StoreInUse),
                LockAttempt::WouldBlock => RootEntrance::Refused(DurableOpenError::StoreInUse),
                LockAttempt::Failed => RootEntrance::Refused(unavailable),
            },
            (RootEntrance::ClassifyingSync, EntranceEvent::SyncAttempted(attempt)) =>
                match sync_class(attempt) {
                Ok(sync) => RootEntrance::Entered(sync),
                Err(error) => RootEntrance::Refused(error),
            },
            _ => RootEntrance::Refused(unavailable),
        }
    }

    fn proceed(check: Result<(), DurableOpenError>, next: Self) -> (state: Self)
        ensures
            state == Self::when(check, next),
    {
        match check {
            Ok(()) => next,
            Err(error) => RootEntrance::Refused(error),
        }
    }

    fn require(succeeded: bool, next: Self) -> (state: Self)
        ensures
            state == Self::when(
                physical::checked(succeeded, DurableOpenError::StorageUnavailable),
                next,
            ),
    {
        if succeeded {
            next
        } else {
            RootEntrance::Refused(DurableOpenError::StorageUnavailable)
        }
    }

    /// What to do next.
    pub fn action(self) -> (action: EntranceAction)
        ensures
            action == self.spec_action(),
    {
        match self {
            RootEntrance::LookingAtRoot | RootEntrance::LookingAtNewRoot => EntranceAction::LookUp(
                StoreLocation::Root,
            ),
            RootEntrance::CreatingRoot => EntranceAction::CreateRoot,
            RootEntrance::LookingForMarker => EntranceAction::LookUp(StoreLocation::FormatMarker),
            RootEntrance::LookingForLock { .. } => EntranceAction::LookUp(StoreLocation::LockFile),
            RootEntrance::OpeningLock { .. } => EntranceAction::OpenLockFile,
            RootEntrance::CreatingLock => EntranceAction::CreateLockFile,
            RootEntrance::InspectingNewLock => EntranceAction::InspectLockFile,
            RootEntrance::ComparingLock { .. } => EntranceAction::CompareLockFile,
            RootEntrance::Locking => EntranceAction::LockExclusively,
            RootEntrance::ClassifyingSync => EntranceAction::SyncRoot,
            RootEntrance::Entered(_) | RootEntrance::Refused(_) => EntranceAction::Finished,
        }
    }

    /// Decides on a lookup of the root directory.
    fn prepare_root(lookup: Lookup) -> (state: Self)
        ensures
            state == RootEntrance::LookingAtRoot.after(EntranceEvent::Seen(lookup)),
    {
        match lookup {
            Ok(metadata) => RootEntrance::proceed(
                validate_root_directory(&metadata),
                RootEntrance::LookingForMarker,
            ),
            Err(LookupError::NotFound) => RootEntrance::CreatingRoot,
            Err(LookupError::Unreadable) => RootEntrance::Refused(
                DurableOpenError::StorageUnavailable,
            ),
        }
    }

    /// Decides on a lookup of the lock file.
    fn open_lock_file(lookup: Lookup, marked: bool) -> (state: Self)
        ensures
            state == (RootEntrance::LookingForLock { marked }).after(EntranceEvent::Seen(lookup)),
    {
        match lookup {
            Ok(metadata) => RootEntrance::proceed(
                validate_existing_regular_file(&metadata, lock_file_error(marked)),
                RootEntrance::OpeningLock { marked },
            ),
            Err(LookupError::NotFound) => if marked {
                RootEntrance::Refused(DurableOpenError::DurableStateCorrupt)
            } else {
                RootEntrance::CreatingLock
            },
            Err(LookupError::Unreadable) => RootEntrance::Refused(
                DurableOpenError::StorageUnavailable,
            ),
        }
    }

    /// Takes in what came of the last action.
    pub fn handle(self, event: EntranceEvent) -> (next: Self)
        ensures
            next == self.after(event),
    {
        match (self, event) {
            (RootEntrance::Entered(sync), _) => RootEntrance::Entered(sync),
            (RootEntrance::Refused(error), _) => RootEntrance::Refused(error),
            (RootEntrance::LookingAtRoot, EntranceEvent::Seen(lookup)) =>
                RootEntrance::prepare_root(lookup),
            (RootEntrance::CreatingRoot, EntranceEvent::Performed(succeeded)) =>
                RootEntrance::require(succeeded, RootEntrance::LookingAtNewRoot),
            (RootEntrance::LookingAtNewRoot, EntranceEvent::Seen(lookup)) => RootEntrance::proceed(
                validate_directory_entry(lookup, DurableOpenError::StorageUnavailable),
                RootEntrance::LookingForMarker,
            ),
            (RootEntrance::LookingForMarker, EntranceEvent::Seen(lookup)) =>
                match format_marker_exists(lookup) {
                Ok(marked) => RootEntrance::LookingForLock { marked },
                Err(error) => RootEntrance::Refused(error),
            },
            (RootEntrance::LookingForLock { marked }, EntranceEvent::Seen(lookup)) =>
                RootEntrance::open_lock_file(lookup, marked),
            (RootEntrance::OpeningLock { marked }, EntranceEvent::Performed(succeeded)) =>
                RootEntrance::require(succeeded, RootEntrance::ComparingLock { marked }),
            (RootEntrance::CreatingLock, EntranceEvent::Performed(succeeded)) =>
                RootEntrance::require(succeeded, RootEntrance::InspectingNewLock),
            (RootEntrance::InspectingNewLock, EntranceEvent::Seen(handle)) => RootEntrance::proceed(
                validate_new_file_mode(handle),
                RootEntrance::ComparingLock { marked: false },
            ),
            (RootEntrance::ComparingLock { marked }, EntranceEvent::Compared(compared)) =>
                RootEntrance::proceed(
                validate_open_regular_file(compared, lock_file_error(marked)),
                RootEntrance::Locking,
            ),
            (RootEntrance::Locking, EntranceEvent::LockAttempted(attempt)) => match attempt {
                LockAttempt::Acquired => RootEntrance::ClassifyingSync,
                LockAttempt::Held | LockAttempt::WouldBlock => RootEntrance::Refused(
                    DurableOpenError::StoreInUse,
                ),
                LockAttempt::Failed => RootEntrance::Refused(DurableOpenError::StorageUnavailable),
            },
            (RootEntrance::ClassifyingSync, EntranceEvent::SyncAttempted(attempt)) =>
                match classify_directory_sync(attempt) {
                Ok(sync) => RootEntrance::Entered(sync),
                Err(error) => RootEntrance::Refused(error),
            },
            _ => RootEntrance::Refused(DurableOpenError::StorageUnavailable),
        }
    }
}

/// What one entry of a root without a format marker amounts to.
pub open spec fn markerless_entry_outcome(name: Seq<u8>, metadata: Lookup) -> Result<
    (),
    DurableOpenError,
> {
    let unsupported = DurableOpenError::UnsupportedStoreFormat;
    if name == listing::name_bytes(LOCK_FILE) {
        physical::regular_entry(metadata, unsupported)
    } else if name == listing::name_bytes(RESERVATIONS_DIRECTORY) || name == listing::name_bytes(
        AGENTS_DIRECTORY,
    ) || name == listing::name_bytes(SESSIONS_DIRECTORY) {
        physical::directory_entry(metadata, unsupported)
    } else {
        Err(unsupported)
    }
}

/// The first entry that fails decides.
pub open spec fn markerless_root_outcome(entries: Seq<RootEntryObservation>) -> Result<
    (),
    DurableOpenError,
>
    decreases entries.len(),
{
    if entries.len() == 0 {
        Ok(())
    } else {
        match markerless_root_outcome(entries.drop_last()) {
            Err(error) => Err(error),
            Ok(()) => markerless_entry_outcome(entries.last().name@, entries.last().metadata),
        }
    }
}

proof fn lemma_markerless_failure_persists(entries: Seq<RootEntryObservation>, n: int)
    requires
        0 <= n <= entries.len(),
        markerless_root_outcome(entries.take(n)) is Err,
    ensures
        markerless_root_outcome(entries) == markerless_root_outcome(entries.take(n)),
    decreases entries.len(),
{
    if n == entries.len() {
        assert(entries.take(n) =~= entries);
    } else {
        assert(entries.drop_last().take(n) =~= entries.take(n));
        lemma_markerless_failure_persists(entries.drop_last(), n);
    }
}

fn validate_markerless_entry(name: &Vec<u8>, metadata: Lookup) -> (result: Result<
    (),
    DurableOpenError,
>)
    ensures
        result == markerless_entry_outcome(name@, metadata),
{
    let name = name.as_slice();
    if entry_has_name(name, LOCK_FILE) {
        validate_regular_entry_path(metadata, DurableOpenError::UnsupportedStoreFormat)
    } else if entry_has_name(name, RESERVATIONS_DIRECTORY) || entry_has_name(name, AGENTS_DIRECTORY)
        || entry_has_name(name, SESSIONS_DIRECTORY) {
        validate_directory_entry(metadata, DurableOpenError::UnsupportedStoreFormat)
    } else {
        Err(DurableOpenError::UnsupportedStoreFormat)
    }
}

/// A root without a format marker may hold only what an interrupted first open leaves.
pub fn validate_markerless_root(entries: &Vec<RootEntryObservation>) -> (result: Result<
    (),
    DurableOpenError,
>)
    ensures
        result == markerless_root_outcome(entries@),
{
    let mut i: usize = 0;
    while i < entries.len()
        invariant
            i <= entries@.len(),
            markerless_root_outcome(entries@.take(i as int)) is Ok,
        decreases entries.len() - i,
    {
        let checked = validate_markerless_entry(&entries[i].name, entries[i].metadata);
        proof {
            let next = entries@.take(i + 1);
            assert(next.drop_last() =~= entries@.take(i as int));
            assert(next.last() == entries@[i as int]);
            if checked is Err {
                lemma_markerless_failure_persists(entries@, i + 1);
            }
        }
        if checked.is_err() {
            return checked;
        }
        i = i + 1;
    }
    assert(entries@.take(i as int) =~= entries@);
    Ok(())
}

/// What one entry of the reservations directory of a new store amounts to.
pub open spec fn markerless_reservation_outcome(entry: NamedEntryObservation) -> Result<(), DurableOpenError> {
    if entry.name@ == listing::name_bytes(AGENTS_DIRECTORY) || entry.name@ == listing::name_bytes(
        SESSIONS_DIRECTORY,
    ) {
        physical::directory_entry(entry.metadata, DurableOpenError::UnsupportedStoreFormat)
    } else {
        Err(DurableOpenError::UnsupportedStoreFormat)
    }
}

pub open spec fn markerless_reservations_outcome(entries: Seq<NamedEntryObservation>) -> Result<
    (),
    DurableOpenError,
>
    decreases entries.len(),
{
    if entries.len() == 0 {
        Ok(())
    } else {
        match markerless_reservations_outcome(entries.drop_last()) {
            Err(error) => Err(error),
            Ok(()) => markerless_reservation_outcome(entries.last()),
        }
    }
}

/// What the whole reservations directory of a new store amounts to.
pub open spec fn reservations_outcome(listing: DirectoryListing<NamedEntryObservation>) -> Result<
    (),
    DurableOpenError,
> {
    match listing.bounded(RESERVATIONS_ENTRY_CAP) {
        Err(error) => Err(error),
        Ok(entries) => markerless_reservations_outcome(entries),
    }
}

proof fn lemma_reservations_failure_persists(entries: Seq<NamedEntryObservation>, n: int)
    requires
        0 <= n <= entries.len(),
        markerless_reservations_outcome(entries.take(n)) is Err,
    ensures
        markerless_reservations_outcome(entries) == markerless_reservations_outcome(
            entries.take(n),
        ),
    decreases entries.len(),
{
    if n == entries.len() {
        assert(entries.take(n) =~= entries);
    } else {
        assert(entries.drop_last().take(n) =~= entries.take(n));
        lemma_reservations_failure_persists(entries.drop_last(), n);
    }
}

pub fn validate_markerless_reservations(listing: &DirectoryListing<NamedEntryObservation>) -> (result: Result<
    (),
    DurableOpenError,
>)
    ensures
        result == reservations_outcome(*listing),
{
    let entries = match read_entries_bounded(listing, RESERVATIONS_ENTRY_CAP) {
        Ok(entries) => entries,
        Err(error) => return Err(error),
    };
    let mut i: usize = 0;
    while i < entries.len()
        invariant
            i <= entries@.len(),
            listing.bounded(RESERVATIONS_ENTRY_CAP) == Ok::<Seq<NamedEntryObservation>, DurableOpenError>(
                entries@,
            ),
            markerless_reservations_outcome(entries@.take(i as int)) is Ok,
        decreases entries.len() - i,
    {
        let name = entries[i].name.as_slice();
        let checked = if entry_has_name(name, AGENTS_DIRECTORY) || entry_has_name(
            name,
            SESSIONS_DIRECTORY,
        ) {
            validate_directory_entry(entries[i].metadata, DurableOpenError::UnsupportedStoreFormat)
        } else {
            Err(DurableOpenError::UnsupportedStoreFormat)
        };
        proof {
            let next = entries@.take(i + 1);
            assert(next.drop_last() =~= entries@.take(i as int));
            assert(next.last() == entries@[i as int]);
            if checked is Err {
                lemma_reservations_failure_persists(entries@, i + 1);
            }
        }
        if checked.is_err() {
            return checked;
        }
        i = i + 1;
    }
    assert(entries@.take(i as int) =~= entries@);
    Ok(())
}

} // verus!
