//! Completing the scaffold of a new store and marking it.
//!
//! The five directories come first, each found or created, and each but the first found empty. The
//! format marker comes last, so that a store that is not marked never holds anything.

use crate::bootstrap;
use crate::bootstrap::validate_markerless_reservations;
use crate::cleanup_run::DirectorySync;
use crate::collection_scan::NamedEntryObservation;
use crate::entity_scan::EntityKind;
use crate::listing;
use crate::listing::{directory_is_empty, DirectoryListing};
use crate::location::StoreLocation;
use crate::open_error::DurableOpenError;
use crate::physical;
use crate::physical::{
    metadata_without_following, validate_existing_directory, validate_new_directory_mode,
    validate_new_file_mode, validate_zero_regular_file, Lookup, LookupError,
    ZeroFileObservation, PRIVATE_DIRECTORY_MODE,
};
use vstd::prelude::*;

verus! {

/// The directories of a store, in the order in which they are completed.
#[derive(Clone, Copy, PartialEq, Eq, Structural)]
pub enum ScaffoldDirectory {
    Reservations,
    AgentReservations,
    SessionReservations,
    Agents,
    Sessions,
}

impl ScaffoldDirectory {
    pub open spec fn spec_location(self) -> StoreLocation {
        match self {
            ScaffoldDirectory::Reservations => StoreLocation::Reservations,
            ScaffoldDirectory::AgentReservations => StoreLocation::ReservationCollection(
                EntityKind::Agent,
            ),
            ScaffoldDirectory::SessionReservations => StoreLocation::ReservationCollection(
                EntityKind::Session,
            ),
            ScaffoldDirectory::Agents => StoreLocation::EntityCollection(EntityKind::Agent),
            ScaffoldDirectory::Sessions => StoreLocation::EntityCollection(EntityKind::Session),
        }
    }

    /// The place in the order.
    pub open spec fn ordinal(self) -> int {
        match self {
            ScaffoldDirectory::Reservations => 0,
            ScaffoldDirectory::AgentReservations => 1,
            ScaffoldDirectory::SessionReservations => 2,
            ScaffoldDirectory::Agents => 3,
            ScaffoldDirectory::Sessions => 4,
        }
    }

    pub fn location(self) -> (location: StoreLocation)
        ensures
            location == self.spec_location(),
    {
        match self {
            ScaffoldDirectory::Reservations => StoreLocation::Reservations,
            ScaffoldDirectory::AgentReservations => StoreLocation::ReservationCollection(
                EntityKind::Agent,
            ),
            ScaffoldDirectory::SessionReservations => StoreLocation::ReservationCollection(
                EntityKind::Session,
            ),
            ScaffoldDirectory::Agents => StoreLocation::EntityCollection(EntityKind::Agent),
            ScaffoldDirectory::Sessions => StoreLocation::EntityCollection(EntityKind::Session),
        }
    }
}

/// How far one directory is.
#[derive(Clone, Copy, PartialEq, Eq, Structural)]
pub enum DirectoryPhase {
    Looking,
    Creating,
    LookingAtNew,
    SyncingParent,
    Listing,
}

/// How far the format marker is.
#[derive(Clone, Copy, PartialEq, Eq, Structural)]
pub enum MarkerPhase {
    Creating,
    Inspecting,
    SyncingFile,
    Checking,
    SyncingRoot,
    CheckingAgain,
}

/// The completion of a new store.
#[derive(Clone, Copy, PartialEq, Eq, Structural)]
pub enum Scaffold {
    Directory { directory: ScaffoldDirectory, phase: DirectoryPhase },
    Marker(MarkerPhase),
    Completed,
    Refused(DurableOpenError),
}

/// What the completion of a new store asks for next.
#[derive(Clone, Copy, PartialEq, Eq, Structural)]
pub enum ScaffoldAction {
    LookUp(StoreLocation),
    CreateDirectory(StoreLocation),
    SyncDirectory(StoreLocation),
    List(StoreLocation),
    CreateFile(StoreLocation),
    /// Looks at the open file through its handle.
    InspectFile(StoreLocation),
    SyncFile(StoreLocation),
    /// Reads a file that is expected to be empty.
    ReadEmpty(StoreLocation),
    Finished,
}

/// What came of the last action.
pub enum ScaffoldEvent {
    Seen(Lookup),
    Performed(bool),
    Listed(DirectoryListing<NamedEntryObservation>),
    Read(ZeroFileObservation),
}

impl Scaffold {
    pub open spec fn start() -> Self {
        Scaffold::Directory {
            directory: ScaffoldDirectory::Reservations,
            phase: DirectoryPhase::Looking,
        }
    }

    /// The next directory, or the marker behind the last one.
    pub open spec fn beyond(directory: ScaffoldDirectory) -> Self {
        match directory {
            ScaffoldDirectory::Reservations => Scaffold::Directory {
                directory: ScaffoldDirectory::AgentReservations,
                phase: DirectoryPhase::Looking,
            },
            ScaffoldDirectory::AgentReservations => Scaffold::Directory {
                directory: ScaffoldDirectory::SessionReservations,
                phase: DirectoryPhase::Looking,
            },
            ScaffoldDirectory::SessionReservations => Scaffold::Directory {
                directory: ScaffoldDirectory::Agents,
                phase: DirectoryPhase::Looking,
            },
            ScaffoldDirectory::Agents => Scaffold::Directory {
                directory: ScaffoldDirectory::Sessions,
                phase: DirectoryPhase::Looking,
            },
            ScaffoldDirectory::Sessions => Scaffold::Marker(MarkerPhase::Creating),
        }
    }

    pub open spec fn when(check: Result<(), DurableOpenError>, next: Self) -> Self {
        match check {
            Ok(()) => next,
            Err(error) => Scaffold::Refused(error),
        }
    }

    pub open spec fn spec_action(self) -> ScaffoldAction {
        match self {
            Scaffold::Directory { directory, phase } => match phase {
                DirectoryPhase::Looking => ScaffoldAction::LookUp(directory.spec_location()),
                DirectoryPhase::Creating => ScaffoldAction::CreateDirectory(
                    directory.spec_location(),
                ),
                DirectoryPhase::LookingAtNew => ScaffoldAction::LookUp(directory.spec_location()),
                DirectoryPhase::SyncingParent => ScaffoldAction::SyncDirectory(
                    directory.spec_location().spec_parent(),
                ),
                DirectoryPhase::Listing => ScaffoldAction::List(directory.spec_location()),
            },
            Scaffold::Marker(phase) => match phase {
                MarkerPhase::Creating => ScaffoldAction::CreateFile(StoreLocation::FormatMarker),
                MarkerPhase::Inspecting => ScaffoldAction::InspectFile(StoreLocation::FormatMarker),
                MarkerPhase::SyncingFile => ScaffoldAction::SyncFile(StoreLocation::FormatMarker),
                MarkerPhase::Checking => ScaffoldAction::ReadEmpty(StoreLocation::FormatMarker),
                MarkerPhase::SyncingRoot => ScaffoldAction::SyncDirectory(StoreLocation::Root),
                MarkerPhase::CheckingAgain => ScaffoldAction::ReadEmpty(
                    StoreLocation::FormatMarker,
                ),
            },
            Scaffold::Completed => ScaffoldAction::Finished,
            Scaffold::Refused(_) => ScaffoldAction::Finished,
        }
    }

    /// The next state from one directory.
    pub open spec fn after_directory(
        directory: ScaffoldDirectory,
        phase: DirectoryPhase,
        event: ScaffoldEvent,
        sync: DirectorySync,
    ) -> Self {
        let unavailable = DurableOpenError::StorageUnavailable;
        let at = |phase: DirectoryPhase| Scaffold::Directory { directory, phase };
        match (phase, event) {
            (DirectoryPhase::Looking, ScaffoldEvent::Seen(lookup)) => match lookup {
                Ok(metadata) => Self::when(
                    physical::checked(
                        metadata.is_private_directory(),
                        DurableOpenError::UnsupportedStoreFormat,
                    ),
                    at(DirectoryPhase::Listing),
                ),
                Err(LookupError::NotFound) => at(DirectoryPhase::Creating),
                Err(LookupError::Unreadable) => Scaffold::Refused(unavailable),
            },
            (DirectoryPhase::Creating, ScaffoldEvent::Performed(succeeded)) => Self::when(
                physical::checked(succeeded, unavailable),
                at(DirectoryPhase::LookingAtNew),
            ),
            (DirectoryPhase::LookingAtNew, ScaffoldEvent::Seen(lookup)) => Self::when(
                new_directory_check(lookup),
                if sync is Supported {
                    at(DirectoryPhase::SyncingParent)
                } else {
                    at(DirectoryPhase::Listing)
                },
            ),
            (DirectoryPhase::SyncingParent, ScaffoldEvent::Performed(succeeded)) => Self::when(
                physical::checked(succeeded, unavailable),
                at(DirectoryPhase::Listing),
            ),
            (DirectoryPhase::Listing, ScaffoldEvent::Listed(listing)) => Self::when(
                content_check(directory, listing),
                Self::beyond(directory),
            ),
            _ => Scaffold::Refused(unavailable),
        }
    }

    /// The next state from the format marker.
    pub open spec fn after_marker(phase: MarkerPhase, event: ScaffoldEvent, sync: DirectorySync) -> Self {
        let unavailable = DurableOpenError::StorageUnavailable;
        match (phase, event) {
            (MarkerPhase::Creating, ScaffoldEvent::Performed(succeeded)) => Self::when(
                physical::checked(succeeded, unavailable),
                Scaffold::Marker(MarkerPhase::Inspecting),
            ),
            (MarkerPhase::Inspecting, ScaffoldEvent::Seen(handle)) => Self::when(
                physical::checked(physical::has_new_file_mode(handle), unavailable),
                Scaffold::Marker(MarkerPhase::SyncingFile),
            ),
            (MarkerPhase::SyncingFile, ScaffoldEvent::Performed(succeeded)) => Self::when(
                physical::checked(succeeded, unavailable),
                Scaffold::Marker(MarkerPhase::Checking),
            ),
            (MarkerPhase::Checking, ScaffoldEvent::Read(observation)) => Self::when(
                marker_check(observation),
                if sync is Supported {
                    Scaffold::Marker(MarkerPhase::SyncingRoot)
                } else {
                    Scaffold::Marker(MarkerPhase::CheckingAgain)
                },
            ),
            (MarkerPhase::SyncingRoot, ScaffoldEvent::Performed(succeeded)) => Self::when(
                physical::checked(succeeded, unavailable),
                Scaffold::Marker(MarkerPhase::CheckingAgain),
            ),
            (MarkerPhase::CheckingAgain, ScaffoldEvent::Read(observation)) => Self::when(
                marker_check(observation),
                Scaffold::Completed,
            ),
            _ => Scaffold::Refused(unavailable),
        }
    }

    /// The next state. An answer that does not belong to the question leaves the storage unavailable.
    pub open spec fn after(self, event: ScaffoldEvent, sync: DirectorySync) -> Self {
        match self {
            Scaffold::Directory { directory, phase } => Self::after_directory(
                directory,
                phase,
                event,
                sync,
            ),
            Scaffold::Marker(phase) => Self::after_marker(phase, event, sync),
            _ => self,
        }
    }

    /// Starts the completion of a new store.
    pub fn begin() -> (scaffold: Self)
        ensures
            scaffold == Self::start(),
    {
        Scaffold::Directory {
            directory: ScaffoldDirectory::Reservations,
            phase: DirectoryPhase::Looking,
        }
    }

    /// What to do next.
    pub fn action(self) -> (action: ScaffoldAction)
        ensures
            action == self.spec_action(),
    {
        match self {
            Scaffold::Directory { directory, phase } => match phase {
                DirectoryPhase::Looking | DirectoryPhase::LookingAtNew => ScaffoldAction::LookUp(
                    directory.location(),
                ),
                DirectoryPhase::Creating => ScaffoldAction::CreateDirectory(directory.location()),
                DirectoryPhase::SyncingParent => ScaffoldAction::SyncDirectory(
                    directory.location().parent(),
                ),
                DirectoryPhase::Listing => ScaffoldAction::List(directory.location()),
            },
            Scaffold::Marker(phase) => match phase {
                MarkerPhase::Creating => ScaffoldAction::CreateFile(StoreLocation::FormatMarker),
                MarkerPhase::Inspecting => ScaffoldAction::InspectFile(StoreLocation::FormatMarker),
                MarkerPhase::SyncingFile => ScaffoldAction::SyncFile(StoreLocation::FormatMarker),
                MarkerPhase::Checking | MarkerPhase::CheckingAgain => ScaffoldAction::ReadEmpty(
                    StoreLocation::FormatMarker,
                ),
                MarkerPhase::SyncingRoot => ScaffoldAction::SyncDirectory(StoreLocation::Root),
            },
            Scaffold::Completed | Scaffold::Refused(_) => ScaffoldAction::Finished,
        }
    }

    fn proceed(check: Result<(), DurableOpenError>, next: Self) -> (state: Self)
        ensures
            state == Self::when(check, next),
    {
        match check {
            Ok(()) => next,
            Err(error) => Scaffold::Refused(error),
        }
    }

    fn require(succeeded: bool, next: Self) -> (state: Self)
        ensures
            state == Self::when(
                physical::checked(succeeded, DurableOpenError::StorageUnavailable),
                next,
            ),
    {
        if succeeded {
            next
        } else {
            Scaffold::Refused(DurableOpenError::StorageUnavailable)
        }
    }

    fn go_beyond(directory: ScaffoldDirectory) -> (next: Self)
        ensures
            next == Self::beyond(directory),
    {
        let next = match directory {
            ScaffoldDirectory::Reservations => ScaffoldDirectory::AgentReservations,
            ScaffoldDirectory::AgentReservations => ScaffoldDirectory::SessionReservations,
            ScaffoldDirectory::SessionReservations => ScaffoldDirectory::Agents,
            ScaffoldDirectory::Agents => ScaffoldDirectory::Sessions,
            ScaffoldDirectory::Sessions => return Scaffold::Marker(MarkerPhase::Creating),
        };
        Scaffold::Directory { directory: next, phase: DirectoryPhase::Looking }
    }

    /// One step of finding or creating a directory.
    fn ensure_markerless_directory(
        directory: ScaffoldDirectory,
        phase: DirectoryPhase,
        event: &ScaffoldEvent,
        sync: DirectorySync,
    ) -> (next: Self)
        ensures
            next == Self::after_directory(directory, phase, *event, sync),
    {
        let listing_next = Scaffold::Directory { directory, phase: DirectoryPhase::Listing };
        match (phase, event) {
            (DirectoryPhase::Looking, ScaffoldEvent::Seen(lookup)) => match *lookup {
                Ok(metadata) => Scaffold::proceed(
                    validate_existing_directory(
                        &metadata,
                        DurableOpenError::UnsupportedStoreFormat,
                    ),
                    listing_next,
                ),
                Err(LookupError::NotFound) => Scaffold::Directory {
                    directory,
                    phase: DirectoryPhase::Creating,
                },
                Err(LookupError::Unreadable) => Scaffold::Refused(
                    DurableOpenError::StorageUnavailable,
                ),
            },
            (DirectoryPhase::Creating, ScaffoldEvent::Performed(succeeded)) => Scaffold::require(
                *succeeded,
                Scaffold::Directory { directory, phase: DirectoryPhase::LookingAtNew },
            ),
            (DirectoryPhase::LookingAtNew, ScaffoldEvent::Seen(lookup)) => {
                let check = match metadata_without_following(*lookup) {
                    Ok(metadata) => validate_new_directory_mode(&metadata),
                    Err(error) => Err(error),
                };
                let next = match sync {
                    DirectorySync::Supported => Scaffold::Directory {
                        directory,
                        phase: DirectoryPhase::SyncingParent,
                    },
                    DirectorySync::Unsupported => listing_next,
                };
                Scaffold::proceed(check, next)
            },
            (DirectoryPhase::SyncingParent, ScaffoldEvent::Performed(succeeded)) =>
                Scaffold::require(*succeeded, listing_next),
            (DirectoryPhase::Listing, ScaffoldEvent::Listed(listing)) => Scaffold::proceed(
                check_content(directory, listing),
                Scaffold::go_beyond(directory),
            ),
            _ => Scaffold::Refused(DurableOpenError::StorageUnavailable),
        }
    }

    /// One step of creating the format marker.
    fn create_format_marker(phase: MarkerPhase, event: &ScaffoldEvent, sync: DirectorySync) -> (next:
        Self)
        ensures
            next == Self::after_marker(phase, *event, sync),
    {
        match (phase, event) {
            (MarkerPhase::Creating, ScaffoldEvent::Performed(succeeded)) => Scaffold::require(
                *succeeded,
                Scaffold::Marker(MarkerPhase::Inspecting),
            ),
            (MarkerPhase::Inspecting, ScaffoldEvent::Seen(handle)) => Scaffold::proceed(
                validate_new_file_mode(*handle),
                Scaffold::Marker(MarkerPhase::SyncingFile),
            ),
            (MarkerPhase::SyncingFile, ScaffoldEvent::Performed(succeeded)) => Scaffold::require(
                *succeeded,
                Scaffold::Marker(MarkerPhase::Checking),
            ),
            (MarkerPhase::Checking, ScaffoldEvent::Read(observation)) => {
                let next = match sync {
                    DirectorySync::Supported => Scaffold::Marker(MarkerPhase::SyncingRoot),
                    DirectorySync::Unsupported => Scaffold::Marker(MarkerPhase::CheckingAgain),
                };
                Scaffold::proceed(check_marker(observation), next)
            },
            (MarkerPhase::SyncingRoot, ScaffoldEvent::Performed(succeeded)) => Scaffold::require(
                *succeeded,
                Scaffold::Marker(MarkerPhase::CheckingAgain),
            ),
            (MarkerPhase::CheckingAgain, ScaffoldEvent::Read(observation)) => Scaffold::proceed(
                check_marker(observation),
                Scaffold::Completed,
            ),
            _ => Scaffold::Refused(DurableOpenError::StorageUnavailable),
        }
    }

    /// Takes in what came of the last action.
    pub fn handle(self, event: &ScaffoldEvent, sync: DirectorySync) -> (next: Self)
        ensures
            next == self.after(*event, sync),
    {
        match self {
            Scaffold::Directory { directory, phase } => Scaffold::ensure_markerless_directory(
                directory,
                phase,
                event,
                sync,
            ),
            Scaffold::Marker(phase) => Scaffold::create_format_marker(phase, event, sync),
            _ => self,
        }
    }
}

/// A directory that was just created is there and carries the private mode.
pub open spec fn new_directory_check(lookup: Lookup) -> Result<(), DurableOpenError> {
    match physical::seen(lookup) {
        Err(error) => Err(error),
        Ok(metadata) => physical::checked(
            metadata.permissions() == PRIVATE_DIRECTORY_MODE,
            DurableOpenError::StorageUnavailable,
        ),
    }
}

/// What a directory of a new store may hold: the first one its two collections, the others nothing.
pub open spec fn content_check(
    directory: ScaffoldDirectory,
    listing: DirectoryListing<NamedEntryObservation>,
) -> Result<(), DurableOpenError> {
    if directory is Reservations {
        bootstrap::reservations_outcome(listing)
    } else {
        match listing::emptiness(listing) {
            Err(error) => Err(error),
            Ok(empty) => physical::checked(empty, DurableOpenError::UnsupportedStoreFormat),
        }
    }
}

fn check_content(directory: ScaffoldDirectory, listing: &DirectoryListing<NamedEntryObservation>) -> (result:
    Result<(), DurableOpenError>)
    ensures
        result == content_check(directory, *listing),
{
    if let ScaffoldDirectory::Reservations = directory {
        return validate_markerless_reservations(listing);
    }
    match directory_is_empty(listing) {
        Err(error) => Err(error),
        Ok(empty) => if empty {
            Ok(())
        } else {
            Err(DurableOpenError::UnsupportedStoreFormat)
        },
    }
}

pub open spec fn marker_check(observation: ZeroFileObservation) -> Result<(), DurableOpenError> {
    match observation.outcome() {
        Ok(_) => Ok(()),
        Err(error) => Err(error),
    }
}

fn check_marker(observation: &ZeroFileObservation) -> (result: Result<(), DurableOpenError>)
    ensures
        result == marker_check(*observation),
{
    match validate_zero_regular_file(observation) {
        Ok(_) => Ok(()),
        Err(error) => Err(error),
    }
}

/// A scaffold after a sequence of answers.
pub open spec fn scaffold_after(events: Seq<ScaffoldEvent>, sync: DirectorySync) -> Scaffold
    decreases events.len(),
{
    if events.len() == 0 {
        Scaffold::start()
    } else {
        scaffold_after(events.drop_last(), sync).after(events.last(), sync)
    }
}

/// Whether the content of a directory was listed and accepted.
pub open spec fn is_listed(
    events: Seq<ScaffoldEvent>,
    sync: DirectorySync,
    directory: ScaffoldDirectory,
) -> bool
    decreases events.len(),
{
    events.len() > 0 && (is_listed(events.drop_last(), sync, directory) || (scaffold_after(
        events.drop_last(),
        sync,
    ).spec_action() == ScaffoldAction::List(directory.spec_location()) && (
    events.last() matches ScaffoldEvent::Listed(listing) && content_check(
        directory,
        listing,
    ) is Ok)))
}

/// The directories before this one were listed and accepted.
spec fn are_listed_below(events: Seq<ScaffoldEvent>, sync: DirectorySync, ordinal: int) -> bool {
    forall|directory: ScaffoldDirectory|
        directory.ordinal() < ordinal ==> #[trigger] is_listed(events, sync, directory)
}

proof fn lemma_listed(events: Seq<ScaffoldEvent>, sync: DirectorySync)
    ensures
        match scaffold_after(events, sync) {
            Scaffold::Directory { directory, .. } => are_listed_below(
                events,
                sync,
                directory.ordinal(),
            ),
            Scaffold::Marker(_) => are_listed_below(events, sync, 5),
            Scaffold::Completed => are_listed_below(events, sync, 5),
            Scaffold::Refused(_) => true,
        },
    decreases events.len(),
{
    if events.len() > 0 {
        let front = events.drop_last();
        lemma_listed(front, sync);
        assert forall|directory: ScaffoldDirectory| is_listed(
            front,
            sync,
            directory,
        ) implies #[trigger] is_listed(events, sync, directory) by {}
        match scaffold_after(front, sync) {
            Scaffold::Directory { directory, phase } => {
                if phase is Listing && !(scaffold_after(events, sync) is Refused) {
                    assert(is_listed(events, sync, directory));
                    assert forall|other: ScaffoldDirectory|
                        other.ordinal() < directory.ordinal() + 1 implies #[trigger] is_listed(
                        events,
                        sync,
                        other,
                    ) by {
                        if other.ordinal() == directory.ordinal() {
                            assert(other == directory);
                        } else {
                            assert(is_listed(front, sync, other));
                        }
                    }
                }
            },
            _ => {},
        }
    }
}

/// The format marker is created only after every directory of the store was found fit: the
/// reservations with nothing but their two collections, all others empty.
pub proof fn law_the_marker_comes_last(
    events: Seq<ScaffoldEvent>,
    sync: DirectorySync,
    directory: ScaffoldDirectory,
)
    requires
        scaffold_after(events, sync) is Marker || scaffold_after(events, sync) is Completed,
    ensures
        is_listed(events, sync, directory),
{
    lemma_listed(events, sync);
}

} // verus!
