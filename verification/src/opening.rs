//! Opening a store: from a root path to a recovered, clean catalog.

use crate::agent_chain::AgentEntryView;
use crate::bootstrap;
use crate::bootstrap::{
    validate_markerless_root, EntranceAction, EntranceEvent, LockAttempt, RootEntrance,
};
use crate::cleanup_plan;
use crate::cleanup_plan::{
    DeferredCleanup, DeferredGenerationCleanup, DeferredUnpublishedEntityCleanup,
    EntityCleanupObservation, GenerationCleanupObservation,
};
use crate::cleanup_run;
use crate::cleanup_run::{
    finalize_deferred_generation_cleanup, finalize_deferred_unpublished_entity_cleanup,
    CleanupAction, CleanupEvent, CleanupRun, CleanupRunView, DirectorySync,
};
use crate::collection_scan::{RecoveryCaps, Reservations};
use crate::fork;
use crate::fork::SessionCatalog;
use crate::idmap::ascending_keys;
use crate::listing::{read_entries_bounded, DirectoryListing, FORMAT_MARKER, ROOT_ENTRY_CAP};
use crate::open_error::DurableOpenError;
use crate::physical::StoreLimits;
use crate::recovery;
use crate::recovery::{
    recover_marked_root, ConversationExpectation, ConversationObservation, PendingRecovery,
    PendingRecoveryView, RecoveredCatalog, RecoveryCandidate, RecoveryCandidateView,
    RecoveryDocuments, RecoveryOutcome, RecoveryProgress,
};
use crate::root_scan;
use crate::root_scan::{
    root_contains, scan_marked_root, MarkedRootModel, MarkedRootObservation, MarkedRootScan,
    RootEntryObservation,
};
use crate::scaffold::{Scaffold, ScaffoldAction, ScaffoldEvent};
use crate::session_chain;
use crate::session_chain::{AgentCatalog, SessionEntryView};
use std::collections::BTreeSet;
use vstd::prelude::*;

verus! {

/// An open store.
pub struct OpenRoot {
    pub catalog: RecoveredCatalog,
    pub agent_reservations: BTreeSet<u128>,
    pub session_reservations: BTreeSet<u128>,
    pub directory_sync: DirectorySync,
}

/// An open store as maps and sets of models.
pub struct OpenRootView {
    pub agents: Map<u128, AgentEntryView>,
    pub sessions: Map<u128, SessionEntryView>,
    pub agent_reservations: Set<u128>,
    pub session_reservations: Set<u128>,
    pub directory_sync: DirectorySync,
}

impl View for OpenRoot {
    type V = OpenRootView;

    open spec fn view(&self) -> OpenRootView {
        OpenRootView {
            agents: session_chain::agent_models(self.catalog.agents@),
            sessions: fork::session_models(self.catalog.sessions@),
            agent_reservations: self.agent_reservations@,
            session_reservations: self.session_reservations@,
            directory_sync: self.directory_sync,
        }
    }
}

impl OpenRootView {
    /// A store that was just marked.
    pub open spec fn empty(directory_sync: DirectorySync) -> Self {
        OpenRootView {
            agents: Map::empty(),
            sessions: Map::empty(),
            agent_reservations: Set::empty(),
            session_reservations: Set::empty(),
            directory_sync,
        }
    }

    /// A store that was recovered.
    pub open spec fn recovered(candidate: RecoveryCandidateView, directory_sync: DirectorySync) -> Self {
        OpenRootView {
            agents: candidate.agents,
            sessions: candidate.sessions,
            agent_reservations: candidate.agent_reservations.dom(),
            session_reservations: candidate.session_reservations.dom(),
            directory_sync,
        }
    }
}

fn reserved_ids(reservations: &Reservations) -> (ids: BTreeSet<u128>)
    ensures
        ids@ == reservations@.dom(),
{
    let keys = ascending_keys(reservations);
    let mut ids: BTreeSet<u128> = BTreeSet::new();
    let mut i: usize = 0;
    assert(keys@.take(0).to_set() =~= Set::empty());
    while i < keys.len()
        invariant
            i <= keys@.len(),
            ids@ == keys@.take(i as int).to_set(),
        decreases keys.len() - i,
    {
        ids.insert(keys[i]);
        proof {
            let before = keys@.take(i as int);
            let after = keys@.take(i + 1);
            assert(after =~= before.push(keys@[i as int]));
            assert forall|id: u128| after.to_set().contains(id) == before.to_set().insert(
                keys@[i as int],
            ).contains(id) by {
                if before.to_set().insert(keys@[i as int]).contains(id) {
                    if id == keys@[i as int] {
                        assert(after[i as int] == id);
                    } else {
                        let k = choose|k: int| 0 <= k < before.len() && before[k] == id;
                        assert(after[k] == id);
                    }
                }
            }
            assert(after.to_set() =~= before.to_set().insert(keys@[i as int]));
        }
        i = i + 1;
    }
    assert(keys@.take(i as int) =~= keys@);
    ids
}

/// The opening of a store. Each state but the last waits for one answer.
pub enum RootOpening {
    /// On the way to the lock.
    Entering(RootEntrance),
    /// The locked root is to be listed.
    Listing(DirectorySync),
    /// A root without a marker is completed.
    Completing { sync: DirectorySync, scaffold: Scaffold },
    /// The directories of a marked root are to be scanned.
    Scanning { sync: DirectorySync, entries: Vec<RootEntryObservation> },
    /// The documents that the scan found are to be read.
    Reading { sync: DirectorySync, scan: MarkedRootScan },
    /// The conversation of an unpublished Session is to be read.
    Conversing { sync: DirectorySync, pending: PendingRecovery },
    /// The one removal is to be revalidated.
    Revalidating { sync: DirectorySync, candidate: RecoveryCandidate, cleanup: DeferredCleanup },
    /// The one removal is carried out.
    Cleaning { sync: DirectorySync, candidate: RecoveryCandidate, run: CleanupRun },
    Finished(Result<OpenRoot, DurableOpenError>),
}

/// Where the opening of a store stands.
pub enum RootOpeningView {
    Entering(RootEntrance),
    Listing(DirectorySync),
    Completing { sync: DirectorySync, scaffold: Scaffold },
    Scanning { sync: DirectorySync, entries: Seq<RootEntryObservation> },
    Reading { sync: DirectorySync, scan: MarkedRootModel },
    Conversing {
        sync: DirectorySync,
        pending: PendingRecoveryView,
        expectation: ConversationExpectation,
    },
    Revalidating {
        sync: DirectorySync,
        candidate: RecoveryCandidateView,
        cleanup: DeferredCleanup,
    },
    Cleaning { sync: DirectorySync, candidate: RecoveryCandidateView, run: CleanupRunView },
    Finished(Result<OpenRootView, DurableOpenError>),
}

/// What the opening of a store asks for next.
pub enum OpeningAction {
    Enter(EntranceAction),
    ListRoot,
    Complete(ScaffoldAction),
    ScanDirectories,
    ReadDocuments,
    ReadConversation { session_id: u128, expectation: ConversationExpectation },
    ObserveGeneration(DeferredGenerationCleanup),
    ObserveEntity(DeferredUnpublishedEntityCleanup),
    Remove(CleanupAction),
    Finished,
}

/// What came of the last action.
pub enum OpeningEvent {
    Entrance(EntranceEvent),
    Listed(DirectoryListing<RootEntryObservation>),
    Completion(ScaffoldEvent),
    Scanned(MarkedRootObservation),
    Documents(RecoveryDocuments),
    Conversation(ConversationObservation),
    GenerationSeen(GenerationCleanupObservation),
    EntitySeen(EntityCleanupObservation),
    Removal(CleanupEvent),
}

impl View for RootOpening {
    type V = RootOpeningView;

    open spec fn view(&self) -> RootOpeningView {
        match self {
            RootOpening::Entering(entrance) => RootOpeningView::Entering(*entrance),
            RootOpening::Listing(sync) => RootOpeningView::Listing(*sync),
            RootOpening::Completing { sync, scaffold } => RootOpeningView::Completing {
                sync: *sync,
                scaffold: *scaffold,
            },
            RootOpening::Scanning { sync, entries } => RootOpeningView::Scanning {
                sync: *sync,
                entries: entries@,
            },
            RootOpening::Reading { sync, scan } => RootOpeningView::Reading {
                sync: *sync,
                scan: scan@,
            },
            RootOpening::Conversing { sync, pending } => RootOpeningView::Conversing {
                sync: *sync,
                pending: pending@,
                expectation: pending.spec_expectation(),
            },
            RootOpening::Revalidating { sync, candidate, cleanup } =>
                RootOpeningView::Revalidating {
                sync: *sync,
                candidate: candidate@,
                cleanup: *cleanup,
            },
            RootOpening::Cleaning { sync, candidate, run } => RootOpeningView::Cleaning {
                sync: *sync,
                candidate: candidate@,
                run: run@,
            },
            RootOpening::Finished(result) => RootOpeningView::Finished(
                match result {
                    Ok(root) => Ok(root@),
                    Err(error) => Err(*error),
                },
            ),
        }
    }
}

impl RootOpeningView {
    pub open spec fn action(self) -> OpeningAction {
        match self {
            RootOpeningView::Entering(entrance) => OpeningAction::Enter(entrance.spec_action()),
            RootOpeningView::Listing(_) => OpeningAction::ListRoot,
            RootOpeningView::Completing { scaffold, .. } => OpeningAction::Complete(
                scaffold.spec_action(),
            ),
            RootOpeningView::Scanning { .. } => OpeningAction::ScanDirectories,
            RootOpeningView::Reading { .. } => OpeningAction::ReadDocuments,
            RootOpeningView::Conversing { pending, expectation, .. } =>
                OpeningAction::ReadConversation { session_id: pending.session_id, expectation },
            RootOpeningView::Revalidating { cleanup, .. } => match cleanup {
                DeferredCleanup::TrailingGeneration(plan) => OpeningAction::ObserveGeneration(plan),
                DeferredCleanup::UnpublishedEntity(plan) => OpeningAction::ObserveEntity(plan),
            },
            RootOpeningView::Cleaning { run, .. } => OpeningAction::Remove(run.action()),
            RootOpeningView::Finished(_) => OpeningAction::Finished,
        }
    }

    pub open spec fn failed(error: DurableOpenError) -> Self {
        RootOpeningView::Finished(Err(error))
    }

    /// Beyond the way to the lock.
    pub open spec fn entering(entrance: RootEntrance) -> Self {
        match entrance {
            RootEntrance::Entered(sync) => RootOpeningView::Listing(sync),
            RootEntrance::Refused(error) => Self::failed(error),
            _ => RootOpeningView::Entering(entrance),
        }
    }

    /// Beyond the listing of the root: the marker alone decides which way it goes.
    pub open spec fn listed(sync: DirectorySync, listing: DirectoryListing<RootEntryObservation>) -> Self {
        match listing.bounded(ROOT_ENTRY_CAP) {
            Err(error) => Self::failed(error),
            Ok(entries) => if root_scan::root_lists(entries, FORMAT_MARKER) {
                RootOpeningView::Scanning { sync, entries }
            } else {
                match bootstrap::markerless_root_outcome(entries) {
                    Err(error) => Self::failed(error),
                    Ok(()) => RootOpeningView::Completing { sync, scaffold: Scaffold::start() },
                }
            },
        }
    }

    pub open spec fn completing(sync: DirectorySync, scaffold: Scaffold) -> Self {
        match scaffold {
            Scaffold::Completed => RootOpeningView::Finished(Ok(OpenRootView::empty(sync))),
            Scaffold::Refused(error) => Self::failed(error),
            _ => RootOpeningView::Completing { sync, scaffold },
        }
    }

    /// Beyond recovery: the store opens at once only where there is nothing to remove.
    pub open spec fn recovered(sync: DirectorySync, candidate: RecoveryCandidateView) -> Self {
        match candidate.cleanup {
            None => RootOpeningView::Finished(Ok(OpenRootView::recovered(candidate, sync))),
            Some(cleanup) => RootOpeningView::Revalidating { sync, candidate, cleanup },
        }
    }

    /// While the one removal is carried out: the store opens only where it succeeds.
    pub open spec fn cleaning(
        sync: DirectorySync,
        candidate: RecoveryCandidateView,
        run: CleanupRunView,
    ) -> Self {
        match run.action() {
            CleanupAction::Finished(Ok(())) => RootOpeningView::Finished(
                Ok(OpenRootView::recovered(candidate, sync)),
            ),
            CleanupAction::Finished(Err(error)) => Self::failed(error),
            _ => RootOpeningView::Cleaning { sync, candidate, run },
        }
    }

    /// Beyond the documents. The header that is expected of a conversation is known by what it says.
    pub open spec fn is_read(
        sync: DirectorySync,
        outcome: Result<RecoveryOutcome, DurableOpenError>,
        next: Self,
    ) -> bool {
        match outcome {
            Err(error) => next == Self::failed(error),
            Ok(RecoveryOutcome::Complete(candidate)) => next == Self::recovered(sync, candidate),
            Ok(RecoveryOutcome::AwaitingConversation(pending, head, definition)) => {
                &&& next is Conversing
                &&& next->Conversing_sync == sync
                &&& next->Conversing_pending == pending
                &&& recovery::is_expected_conversation(
                    next->Conversing_expectation,
                    head,
                    definition,
                )
            },
        }
    }

    /// The next state, for every event but the documents. An answer that does not belong to the
    /// question leaves the storage unavailable.
    pub open spec fn after(self, event: OpeningEvent, caps: RecoveryCaps, limits: StoreLimits) -> Self {
        match (self, event) {
            (RootOpeningView::Finished(_), _) => self,
            (RootOpeningView::Entering(entrance), OpeningEvent::Entrance(event)) => Self::entering(
                entrance.after(event),
            ),
            (RootOpeningView::Listing(sync), OpeningEvent::Listed(listing)) => Self::listed(
                sync,
                listing,
            ),
            (RootOpeningView::Completing { sync, scaffold }, OpeningEvent::Completion(event)) =>
                Self::completing(sync, scaffold.after(event, sync)),
            (RootOpeningView::Scanning { sync, entries }, OpeningEvent::Scanned(observation)) =>
                match root_scan::marked_root_outcome(entries, observation, caps, limits) {
                Err(error) => Self::failed(error),
                Ok(scan) => RootOpeningView::Reading { sync, scan },
            },
            (
                RootOpeningView::Conversing { sync, pending, .. },
                OpeningEvent::Conversation(observation),
            ) => match observation.outcome(limits) {
                Err(error) => Self::failed(error),
                Ok(()) => match recovery::with_session_cleanup(pending) {
                    Err(error) => Self::failed(error),
                    Ok(candidate) => Self::recovered(sync, candidate),
                },
            },
            (
                RootOpeningView::Revalidating {
                    sync,
                    candidate,
                    cleanup: DeferredCleanup::TrailingGeneration(plan),
                },
                OpeningEvent::GenerationSeen(observation),
            ) => match cleanup_plan::generation_revalidation(plan, observation, limits) {
                Err(error) => Self::failed(error),
                Ok(contents) => Self::cleaning(
                    sync,
                    candidate,
                    CleanupRunView::start(cleanup_run::generation_steps(plan, contents, sync)),
                ),
            },
            (
                RootOpeningView::Revalidating {
                    sync,
                    candidate,
                    cleanup: DeferredCleanup::UnpublishedEntity(plan),
                },
                OpeningEvent::EntitySeen(observation),
            ) => match cleanup_plan::entity_revalidation(plan, observation, limits) {
                Err(error) => Self::failed(error),
                Ok(()) => Self::cleaning(
                    sync,
                    candidate,
                    CleanupRunView::start(cleanup_run::entity_steps(plan, sync)),
                ),
            },
            (RootOpeningView::Cleaning { sync, candidate, run }, OpeningEvent::Removal(event)) =>
                Self::cleaning(sync, candidate, run.after(event)),
            _ => Self::failed(DurableOpenError::StorageUnavailable),
        }
    }

    /// Whether an event leads from one state to another.
    pub open spec fn leads_to(
        self,
        event: OpeningEvent,
        caps: RecoveryCaps,
        limits: StoreLimits,
        next: Self,
    ) -> bool {
        match (self, event) {
            (RootOpeningView::Reading { sync, scan }, OpeningEvent::Documents(documents)) =>
                Self::is_read(
                sync,
                recovery::recovery_outcome(
                    scan,
                    documents.agents@,
                    documents.sessions@,
                    caps.generations,
                ),
                next,
            ),
            _ => next == self.after(event, caps, limits),
        }
    }
}

fn open_recovered(candidate: RecoveryCandidate, directory_sync: DirectorySync) -> (root: OpenRoot)
    ensures
        root@ == OpenRootView::recovered(candidate@, directory_sync),
{
    let agent_reservations = reserved_ids(&candidate.agent_reservations);
    let session_reservations = reserved_ids(&candidate.session_reservations);
    OpenRoot {
        catalog: candidate.catalog,
        agent_reservations,
        session_reservations,
        directory_sync,
    }
}

fn open_empty(directory_sync: DirectorySync) -> (root: OpenRoot)
    ensures
        root@ == OpenRootView::empty(directory_sync),
{
    let agents: AgentCatalog = AgentCatalog::new();
    let sessions: SessionCatalog = SessionCatalog::new();
    let root = OpenRoot {
        catalog: RecoveredCatalog { agents, sessions },
        agent_reservations: BTreeSet::new(),
        session_reservations: BTreeSet::new(),
        directory_sync,
    };
    assert(root@.agents =~= Map::empty());
    assert(root@.sessions =~= Map::empty());
    root
}

impl RootOpening {
    /// Starts to open a store.
    pub fn begin() -> (opening: Self)
        ensures
            opening@ == RootOpeningView::Entering(RootEntrance::LookingAtRoot),
    {
        RootOpening::Entering(RootEntrance::LookingAtRoot)
    }

    /// What to do next.
    pub fn action(&self) -> (action: OpeningAction)
        ensures
            action == self@.action(),
    {
        match self {
            RootOpening::Entering(entrance) => OpeningAction::Enter(entrance.action()),
            RootOpening::Listing(_) => OpeningAction::ListRoot,
            RootOpening::Completing { scaffold, .. } => OpeningAction::Complete(scaffold.action()),
            RootOpening::Scanning { .. } => OpeningAction::ScanDirectories,
            RootOpening::Reading { .. } => OpeningAction::ReadDocuments,
            RootOpening::Conversing { pending, .. } => OpeningAction::ReadConversation {
                session_id: pending.session_id(),
                expectation: pending.expectation(),
            },
            RootOpening::Revalidating { cleanup, .. } => match cleanup {
                DeferredCleanup::TrailingGeneration(plan) => OpeningAction::ObserveGeneration(
                    *plan,
                ),
                DeferredCleanup::UnpublishedEntity(plan) => OpeningAction::ObserveEntity(*plan),
            },
            RootOpening::Cleaning { run, .. } => OpeningAction::Remove(run.action()),
            RootOpening::Finished(_) => OpeningAction::Finished,
        }
    }

    fn failed(error: DurableOpenError) -> (state: Self)
        ensures
            state@ == RootOpeningView::failed(error),
    {
        RootOpening::Finished(Err(error))
    }

    fn entering(entrance: RootEntrance) -> (state: Self)
        ensures
            state@ == RootOpeningView::entering(entrance),
    {
        match entrance {
            RootEntrance::Entered(sync) => RootOpening::Listing(sync),
            RootEntrance::Refused(error) => RootOpening::failed(error),
            _ => RootOpening::Entering(entrance),
        }
    }

    fn listed(sync: DirectorySync, listing: DirectoryListing<RootEntryObservation>) -> (state: Self)
        ensures
            state@ == RootOpeningView::listed(sync, listing),
    {
        match read_entries_bounded(&listing, ROOT_ENTRY_CAP) {
            Err(error) => return RootOpening::failed(error),
            Ok(_) => {},
        }
        if root_contains(&listing.entries, FORMAT_MARKER) {
            return RootOpening::Scanning { sync, entries: listing.entries };
        }
        match validate_markerless_root(&listing.entries) {
            Err(error) => RootOpening::failed(error),
            Ok(()) => RootOpening::Completing { sync, scaffold: Scaffold::begin() },
        }
    }

    fn completing(sync: DirectorySync, scaffold: Scaffold) -> (state: Self)
        ensures
            state@ == RootOpeningView::completing(sync, scaffold),
    {
        match scaffold {
            Scaffold::Completed => RootOpening::Finished(Ok(open_empty(sync))),
            Scaffold::Refused(error) => RootOpening::failed(error),
            _ => RootOpening::Completing { sync, scaffold },
        }
    }

    fn recovered(sync: DirectorySync, candidate: RecoveryCandidate) -> (state: Self)
        ensures
            state@ == RootOpeningView::recovered(sync, candidate@),
    {
        match candidate.cleanup {
            None => RootOpening::Finished(Ok(open_recovered(candidate, sync))),
            Some(cleanup) => RootOpening::Revalidating { sync, candidate, cleanup },
        }
    }

    fn cleaning(sync: DirectorySync, candidate: RecoveryCandidate, run: CleanupRun) -> (state: Self)
        ensures
            state@ == RootOpeningView::cleaning(sync, candidate@, run@),
    {
        match run.action() {
            CleanupAction::Finished(Ok(())) => RootOpening::Finished(
                Ok(open_recovered(candidate, sync)),
            ),
            CleanupAction::Finished(Err(error)) => RootOpening::failed(error),
            _ => RootOpening::Cleaning { sync, candidate, run },
        }
    }

    /// Takes in what came of the last action.
    pub fn handle(self, event: OpeningEvent, caps: RecoveryCaps, limits: StoreLimits) -> (next: Self)
        ensures
            self@.leads_to(event, caps, limits, next@),
    {
        match (self, event) {
            (RootOpening::Finished(result), _) => RootOpening::Finished(result),
            (RootOpening::Entering(entrance), OpeningEvent::Entrance(event)) =>
                RootOpening::entering(entrance.handle(event)),
            (RootOpening::Listing(sync), OpeningEvent::Listed(listing)) => RootOpening::listed(
                sync,
                listing,
            ),
            (RootOpening::Completing { sync, scaffold }, OpeningEvent::Completion(event)) =>
                RootOpening::completing(sync, scaffold.handle(&event, sync)),
            (RootOpening::Scanning { sync, entries }, OpeningEvent::Scanned(observation)) =>
                match scan_marked_root(&entries, &observation, caps, limits) {
                Err(error) => RootOpening::failed(error),
                Ok(scan) => RootOpening::Reading { sync, scan },
            },
            (RootOpening::Reading { sync, scan }, OpeningEvent::Documents(documents)) =>
                match recover_marked_root(scan, documents, caps.generations) {
                Err(error) => RootOpening::failed(error),
                Ok(RecoveryProgress::Complete(candidate)) => RootOpening::recovered(
                    sync,
                    candidate,
                ),
                Ok(RecoveryProgress::AwaitingConversation(pending)) => RootOpening::Conversing {
                    sync,
                    pending,
                },
            },
            (
                RootOpening::Conversing { sync, pending },
                OpeningEvent::Conversation(observation),
            ) => match pending.resume(&observation, limits) {
                Err(error) => RootOpening::failed(error),
                Ok(candidate) => RootOpening::recovered(sync, candidate),
            },
            (
                RootOpening::Revalidating {
                    sync,
                    candidate,
                    cleanup: DeferredCleanup::TrailingGeneration(plan),
                },
                OpeningEvent::GenerationSeen(observation),
            ) => match finalize_deferred_generation_cleanup(&plan, &observation, limits, sync) {
                Err(error) => RootOpening::failed(error),
                Ok(run) => RootOpening::cleaning(sync, candidate, run),
            },
            (
                RootOpening::Revalidating {
                    sync,
                    candidate,
                    cleanup: DeferredCleanup::UnpublishedEntity(plan),
                },
                OpeningEvent::EntitySeen(observation),
            ) => match finalize_deferred_unpublished_entity_cleanup(
                &plan,
                &observation,
                limits,
                sync,
            ) {
                Err(error) => RootOpening::failed(error),
                Ok(run) => RootOpening::cleaning(sync, candidate, run),
            },
            (RootOpening::Cleaning { sync, candidate, run }, OpeningEvent::Removal(event)) =>
                RootOpening::cleaning(sync, candidate, run.handle(event)),
            _ => RootOpening::failed(DurableOpenError::StorageUnavailable),
        }
    }
}

/// A history of an opening: the states it went through, and the events between them.
pub open spec fn is_history(
    states: Seq<RootOpeningView>,
    events: Seq<OpeningEvent>,
    caps: RecoveryCaps,
    limits: StoreLimits,
) -> bool {
    &&& states.len() == events.len() + 1
    &&& states[0] == RootOpeningView::Entering(RootEntrance::LookingAtRoot)
    &&& forall|i: int, j: int|
        0 <= i < events.len() && j == i + 1 ==> #[trigger] states[i].leads_to(
            events[i],
            caps,
            limits,
            #[trigger] states[j],
        )
}

/// Whether the lock was acquired in a history.
pub open spec fn acquires_lock(events: Seq<OpeningEvent>) -> bool {
    exists|i: int|
        0 <= i < events.len() && #[trigger] events[i] == OpeningEvent::Entrance(
            EntranceEvent::LockAttempted(LockAttempt::Acquired),
        )
}

/// The states that only the holder of the lock reaches.
pub open spec fn needs_lock(state: RootOpeningView) -> bool {
    match state {
        RootOpeningView::Entering(entrance) => entrance is ClassifyingSync || entrance is Entered,
        RootOpeningView::Finished(result) => result is Ok,
        _ => true,
    }
}

/// One step before the lock: either nothing of the store is reached yet, or the lock was just
/// acquired.
proof fn lemma_step_to_the_lock(
    before: RootOpeningView,
    event: OpeningEvent,
    caps: RecoveryCaps,
    limits: StoreLimits,
    after: RootOpeningView,
)
    requires
        before.leads_to(event, caps, limits, after),
        !needs_lock(before),
        needs_lock(after),
    ensures
        event == OpeningEvent::Entrance(EntranceEvent::LockAttempted(LockAttempt::Acquired)),
{
    match before {
        RootOpeningView::Entering(entrance) => {
            match event {
                OpeningEvent::Entrance(event) => {
                    assert(after == RootOpeningView::entering(entrance.after(event)));
                },
                _ => {},
            }
        },
        _ => {},
    }
}

/// Nothing of a store is listed, completed, scanned, read or removed, and no store opens, before its
/// lock is acquired.
pub proof fn law_everything_waits_for_the_lock(
    states: Seq<RootOpeningView>,
    events: Seq<OpeningEvent>,
    caps: RecoveryCaps,
    limits: StoreLimits,
)
    requires
        is_history(states, events, caps, limits),
        needs_lock(states.last()),
    ensures
        acquires_lock(events),
    decreases events.len(),
{
    if events.len() > 0 {
        let n = events.len() as int - 1;
        let before = states[n];
        assert(before.leads_to(events[n], caps, limits, states[n + 1]));
        if needs_lock(before) {
            let front = events.drop_last();
            let reached = states.drop_last();
            assert(reached.last() == before);
            assert forall|i: int, j: int| 0 <= i < front.len() && j == i + 1 implies #[trigger]
                reached[i].leads_to(front[i], caps, limits, #[trigger] reached[j]) by {
                assert(states[i].leads_to(events[i], caps, limits, states[j]));
            }
            law_everything_waits_for_the_lock(reached, front, caps, limits);
            let k = choose|k: int|
                0 <= k < front.len() && #[trigger] front[k] == OpeningEvent::Entrance(
                    EntranceEvent::LockAttempted(LockAttempt::Acquired),
                );
            assert(events[k] == front[k]);
        } else {
            lemma_step_to_the_lock(before, events[n], caps, limits, states[n + 1]);
            assert(events[n] == OpeningEvent::Entrance(
                EntranceEvent::LockAttempted(LockAttempt::Acquired),
            ));
        }
    }
}

/// A store opens in one of three ways: empty, once its scaffold is marked; recovered, where there was
/// nothing to remove; or recovered, once the one removal has succeeded.
pub proof fn law_a_store_opens_clean(
    before: RootOpeningView,
    event: OpeningEvent,
    caps: RecoveryCaps,
    limits: StoreLimits,
    root: OpenRootView,
)
    requires
        before !is Finished,
        before.leads_to(event, caps, limits, RootOpeningView::Finished(Ok(root))),
    ensures
        match (before, event) {
            (RootOpeningView::Completing { sync, scaffold }, OpeningEvent::Completion(event)) => {
                &&& scaffold.after(event, sync) is Completed
                &&& root == OpenRootView::empty(sync)
            },
            (RootOpeningView::Reading { sync, scan }, OpeningEvent::Documents(documents)) => {
                &&& recovery::recovery_outcome(
                    scan,
                    documents.agents@,
                    documents.sessions@,
                    caps.generations,
                ) matches Ok(RecoveryOutcome::Complete(candidate))
                &&& candidate.cleanup is None
                &&& root == OpenRootView::recovered(candidate, sync)
            },
            (RootOpeningView::Cleaning { sync, candidate, run }, OpeningEvent::Removal(event)) => {
                &&& run.after(event).action() == CleanupAction::Finished(Ok(()))
                &&& root == OpenRootView::recovered(candidate, sync)
            },
            _ => false,
        },
{
    match (before, event) {
        (
            RootOpeningView::Revalidating {
                sync,
                cleanup: DeferredCleanup::TrailingGeneration(plan),
                ..
            },
            OpeningEvent::GenerationSeen(observation),
        ) => {
            match cleanup_plan::generation_revalidation(plan, observation, limits) {
                Ok(contents) => {
                    assert(cleanup_run::generation_steps(plan, contents, sync).len() > 0);
                },
                Err(_) => {},
            }
        },
        (
            RootOpeningView::Revalidating {
                sync,
                cleanup: DeferredCleanup::UnpublishedEntity(plan),
                ..
            },
            OpeningEvent::EntitySeen(_),
        ) => {
            assert(cleanup_run::entity_steps(plan, sync).len() > 0);
        },
        _ => {},
    }
}

} // verus!
