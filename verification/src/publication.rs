//! Publishing the first generation of an Agent, one filesystem step at a time.
//!
//! A publication stages the entity, crosses the commit barrier, creates `COMMITTED`, and then creates
//! `PUBLISHED`. Whatever fails is reconciled by reading back what is really there: staging is removed
//! only where the marker behind the barrier is known to be absent, and a marker that is there is
//! settled as published or leaves the store poisoned.

use crate::agent_chain;
use crate::agent_chain::{validate_generation_one_agent_semantics, AgentEntryView};
use crate::barrier::{DurableCommitBarrier, DurableCommitStage};
use crate::cleanup_plan;
use crate::cleanup_plan::{DeferredUnpublishedEntityCleanup, EntityCleanupObservation};
use crate::cleanup_run;
use crate::cleanup_run::{
    finalize_deferred_unpublished_entity_cleanup, CleanupAction, CleanupEvent, CleanupRun,
    CleanupRunView, DirectorySync,
};
use crate::entity_scan::EntityKind;
use crate::generation::StorageGeneration;
use crate::head::{AgentHeadView, DurableAgentHead};
use crate::lifecycle::{AgentDefinition, AgentDefinitionView};
use crate::location::{EntityKey, StoreLocation};
use crate::open_error;
use crate::open_error::{
    map_publication_codec_error, DurableAgentCreateError, DurableOpenError, DurableStoreCodecError,
};
use crate::physical;
use crate::physical::{validate_new_file_mode, Lookup, StoreLimits};
use crate::publication_check;
use crate::publication_check::{
    cleanup_operation_owned_agent_staging, exact_readback_state, ordinary_publication_error,
    publication_error_for_certainty, recover_published_agent, PublicationCertainty,
    PublicationResultView, PublicationWorkResult, PublishedAgentObservation, ReadbackObservation,
    StagingDecision, StagingObservation,
};
use vstd::prelude::*;

verus! {

/// One filesystem step of a publication.
#[derive(Clone, Copy, PartialEq, Eq, Structural)]
pub enum PublicationStep {
    CreateDirectory(StoreLocation),
    SyncDirectory(StoreLocation),
    /// Creates a file that must not exist.
    CreateFile(StoreLocation),
    /// Opens a file that should exist.
    OpenFile(StoreLocation),
    /// Looks at the open file.
    InspectFile(StoreLocation),
    WriteFile(StoreLocation),
    SyncFile(StoreLocation),
    ReadBack(StoreLocation),
    /// Reads the whole published entity.
    Recover,
}

/// A run of steps that share what happens when one of them fails.
#[derive(Clone, Copy, PartialEq, Eq, Structural)]
pub enum PublicationSegment {
    /// Everything before the barrier.
    Precommit,
    /// `COMMITTED`, from its creation to its readback.
    Commit,
    /// After a failure around `COMMITTED`: what is really there?
    CommittedCheck,
    /// `COMMITTED` is there: its durability steps are tried once more.
    CommittedResync,
    /// `PUBLISHED`, from its creation to the recovery of the Agent.
    Publish { close_required: bool },
    /// After a failure around `PUBLISHED`: what is really there?
    PublishedCheck { close_required: bool, error: DurableAgentCreateError },
    /// `PUBLISHED` is there: its durability steps are tried once more.
    PublishedResync { close_required: bool },
    /// The Agent is recovered after that.
    PublishedRecovery { close_required: bool },
}

pub open spec fn agent_key(agent_id: u128) -> EntityKey {
    EntityKey { kind: EntityKind::Agent, id: agent_id }
}

pub open spec fn sync_step(sync: DirectorySync, location: StoreLocation) -> Seq<PublicationStep> {
    if sync is Supported {
        seq![PublicationStep::SyncDirectory(location)]
    } else {
        seq![]
    }
}

/// Creates, writes and syncs one document.
pub open spec fn document_steps(location: StoreLocation) -> Seq<PublicationStep> {
    seq![
        PublicationStep::CreateFile(location),
        PublicationStep::InspectFile(location),
        PublicationStep::WriteFile(location),
        PublicationStep::SyncFile(location),
    ]
}

pub open spec fn directory_steps(location: StoreLocation, sync: DirectorySync) -> Seq<
    PublicationStep,
> {
    seq![PublicationStep::CreateDirectory(location)] + sync_step(sync, location.spec_parent())
}

/// The directories, each made durable in the directory above it.
pub open spec fn scaffold_steps(key: EntityKey, sync: DirectorySync) -> Seq<PublicationStep> {
    directory_steps(StoreLocation::Entity(key), sync) + directory_steps(
        StoreLocation::Generations(key),
        sync,
    ) + directory_steps(StoreLocation::Generation(key, StorageGeneration::of(1)), sync)
}

/// The documents, made durable and read back.
pub open spec fn payload_steps(key: EntityKey, sync: DirectorySync) -> Seq<PublicationStep> {
    let first = StorageGeneration::of(1);
    document_steps(StoreLocation::Head(key, first)) + document_steps(
        StoreLocation::Definition(key, first),
    ) + sync_step(sync, StoreLocation::Generation(key, first)) + seq![
        PublicationStep::ReadBack(StoreLocation::Head(key, first)),
        PublicationStep::ReadBack(StoreLocation::Definition(key, first)),
    ]
}

/// Makes an open marker durable in its directory.
pub open spec fn durable_marker_steps(location: StoreLocation, sync: DirectorySync) -> Seq<
    PublicationStep,
> {
    seq![PublicationStep::InspectFile(location), PublicationStep::SyncFile(location)] + sync_step(
        sync,
        location.spec_parent(),
    )
}

/// Reads the marker and both documents back.
pub open spec fn commit_readback_steps(key: EntityKey) -> Seq<PublicationStep> {
    let first = StorageGeneration::of(1);
    seq![
        PublicationStep::ReadBack(StoreLocation::Committed(key, first)),
        PublicationStep::ReadBack(StoreLocation::Head(key, first)),
        PublicationStep::ReadBack(StoreLocation::Definition(key, first)),
    ]
}

/// The steps of a segment.
#[verifier::opaque]
pub open spec fn segment_steps(
    segment: PublicationSegment,
    agent_id: u128,
    sync: DirectorySync,
) -> Seq<PublicationStep> {
    let key = agent_key(agent_id);
    let committed = StoreLocation::Committed(key, StorageGeneration::of(1));
    let published = StoreLocation::Published(key);
    let collection = sync_step(sync, StoreLocation::EntityCollection(key.kind));
    match segment {
        PublicationSegment::Precommit => scaffold_steps(key, sync) + payload_steps(key, sync),
        PublicationSegment::Commit => seq![PublicationStep::CreateFile(committed)]
            + durable_marker_steps(committed, sync) + commit_readback_steps(key),
        PublicationSegment::CommittedCheck => commit_readback_steps(key),
        PublicationSegment::CommittedResync => seq![PublicationStep::OpenFile(committed)]
            + durable_marker_steps(committed, sync),
        PublicationSegment::Publish { .. } => seq![PublicationStep::CreateFile(published)]
            + durable_marker_steps(published, sync) + collection + seq![PublicationStep::Recover],
        PublicationSegment::PublishedCheck { .. } => seq![PublicationStep::ReadBack(published)],
        PublicationSegment::PublishedResync { .. } => seq![PublicationStep::OpenFile(published)]
            + durable_marker_steps(published, sync) + collection,
        PublicationSegment::PublishedRecovery { .. } => seq![PublicationStep::Recover],
    }
}

fn push_sync(steps: &mut Vec<PublicationStep>, sync: DirectorySync, location: StoreLocation)
    ensures
        final(steps)@ == old(steps)@ + sync_step(sync, location),
{
    if matches!(sync, DirectorySync::Supported) {
        steps.push(PublicationStep::SyncDirectory(location));
    }
    assert(steps@ =~= old(steps)@ + sync_step(sync, location));
}

fn push_directory(steps: &mut Vec<PublicationStep>, sync: DirectorySync, location: StoreLocation)
    ensures
        final(steps)@ == old(steps)@ + directory_steps(location, sync),
{
    steps.push(PublicationStep::CreateDirectory(location));
    push_sync(steps, sync, location.parent());
    assert(steps@ =~= old(steps)@ + directory_steps(location, sync));
}

fn push_document(steps: &mut Vec<PublicationStep>, location: StoreLocation)
    ensures
        final(steps)@ == old(steps)@ + document_steps(location),
{
    steps.push(PublicationStep::CreateFile(location));
    steps.push(PublicationStep::InspectFile(location));
    steps.push(PublicationStep::WriteFile(location));
    steps.push(PublicationStep::SyncFile(location));
    assert(steps@ =~= old(steps)@ + document_steps(location));
}

fn push_durable_marker(steps: &mut Vec<PublicationStep>, sync: DirectorySync, location: StoreLocation)
    ensures
        final(steps)@ == old(steps)@ + durable_marker_steps(location, sync),
{
    steps.push(PublicationStep::InspectFile(location));
    steps.push(PublicationStep::SyncFile(location));
    push_sync(steps, sync, location.parent());
    assert(steps@ =~= old(steps)@ + durable_marker_steps(location, sync));
}

fn push_commit_readback(steps: &mut Vec<PublicationStep>, key: EntityKey)
    ensures
        final(steps)@ == old(steps)@ + commit_readback_steps(key),
{
    let first = StorageGeneration::first();
    steps.push(PublicationStep::ReadBack(StoreLocation::Committed(key, first)));
    steps.push(PublicationStep::ReadBack(StoreLocation::Head(key, first)));
    steps.push(PublicationStep::ReadBack(StoreLocation::Definition(key, first)));
    assert(steps@ =~= old(steps)@ + commit_readback_steps(key));
}

fn precommit(key: EntityKey, sync: DirectorySync) -> (steps: Vec<PublicationStep>)
    ensures
        steps@ == scaffold_steps(key, sync) + payload_steps(key, sync),
{
    let first = StorageGeneration::first();
    let mut steps: Vec<PublicationStep> = Vec::new();
    push_directory(&mut steps, sync, StoreLocation::Entity(key));
    push_directory(&mut steps, sync, StoreLocation::Generations(key));
    push_directory(&mut steps, sync, StoreLocation::Generation(key, first));
    assert(steps@ =~= scaffold_steps(key, sync));
    push_document(&mut steps, StoreLocation::Head(key, first));
    push_document(&mut steps, StoreLocation::Definition(key, first));
    push_sync(&mut steps, sync, StoreLocation::Generation(key, first));
    steps.push(PublicationStep::ReadBack(StoreLocation::Head(key, first)));
    steps.push(PublicationStep::ReadBack(StoreLocation::Definition(key, first)));
    assert(steps@ =~= scaffold_steps(key, sync) + payload_steps(key, sync));
    steps
}

fn steps_of(segment: PublicationSegment, agent_id: u128, sync: DirectorySync) -> (steps: Vec<
    PublicationStep,
>)
    ensures
        steps@ == segment_steps(segment, agent_id, sync),
{
    let key = EntityKey { kind: EntityKind::Agent, id: agent_id };
    let committed = StoreLocation::Committed(key, StorageGeneration::first());
    let published = StoreLocation::Published(key);
    let mut steps: Vec<PublicationStep> = Vec::new();
    match segment {
        PublicationSegment::Precommit => {
            steps = precommit(key, sync);
        },
        PublicationSegment::Commit => {
            steps.push(PublicationStep::CreateFile(committed));
            push_durable_marker(&mut steps, sync, committed);
            push_commit_readback(&mut steps, key);
        },
        PublicationSegment::CommittedCheck => {
            push_commit_readback(&mut steps, key);
        },
        PublicationSegment::CommittedResync => {
            steps.push(PublicationStep::OpenFile(committed));
            push_durable_marker(&mut steps, sync, committed);
        },
        PublicationSegment::Publish { .. } => {
            steps.push(PublicationStep::CreateFile(published));
            push_durable_marker(&mut steps, sync, published);
            push_sync(&mut steps, sync, StoreLocation::EntityCollection(EntityKind::Agent));
            steps.push(PublicationStep::Recover);
        },
        PublicationSegment::PublishedCheck { .. } => {
            steps.push(PublicationStep::ReadBack(published));
        },
        PublicationSegment::PublishedResync { .. } => {
            steps.push(PublicationStep::OpenFile(published));
            push_durable_marker(&mut steps, sync, published);
            push_sync(&mut steps, sync, StoreLocation::EntityCollection(EntityKind::Agent));
        },
        PublicationSegment::PublishedRecovery { .. } => {
            steps.push(PublicationStep::Recover);
        },
    }
    proof {
        reveal(segment_steps);
    }
    assert(steps@ =~= segment_steps(segment, agent_id, sync));
    steps
}

/// What a publication asks for next.
pub enum PublicationAction {
    Perform(PublicationStep),
    /// The reservation and the whole staged entity are to be read.
    ObserveStaging,
    /// The planned removal is to be looked at again.
    ObserveRemoval(DeferredUnpublishedEntityCleanup),
    /// One step of the removal.
    Remove(CleanupAction),
    Finished,
}

/// What came of the last action.
pub enum PublicationEvent {
    Performed(bool),
    Seen(Lookup),
    ReadBack(ReadbackObservation),
    Recovered(PublishedAgentObservation),
    Staging(StagingObservation),
    Removal(EntityCleanupObservation),
    Cleanup(CleanupEvent),
}

enum PublicationState {
    Stepping { segment: PublicationSegment, steps: Vec<PublicationStep>, position: usize },
    Staging { allow_committed: bool, error: DurableAgentCreateError, close_required: bool },
    Planned {
        plan: DeferredUnpublishedEntityCleanup,
        error: DurableAgentCreateError,
        close_required: bool,
    },
    Removing { run: CleanupRun, error: DurableAgentCreateError, close_required: bool },
    Finished(PublicationWorkResult),
}

/// Where a publication stands.
pub enum PublicationStateView {
    /// At one step of a segment.
    Stepping { segment: PublicationSegment, position: nat },
    /// It failed, and its staging is to be read.
    Staging { allow_committed: bool, error: DurableAgentCreateError, close_required: bool },
    /// It failed, and the removal of its staging is to be revalidated.
    Planned {
        plan: DeferredUnpublishedEntityCleanup,
        error: DurableAgentCreateError,
        close_required: bool,
    },
    /// It failed, and its staging is being removed.
    Removing { run: CleanupRunView, error: DurableAgentCreateError, close_required: bool },
    Finished(PublicationResultView),
}

/// One publication of the first generation of an Agent.
pub struct Publication {
    agent_id: u128,
    sync: DirectorySync,
    limits: StoreLimits,
    head_bytes: Vec<u8>,
    definition_bytes: Vec<u8>,
    state: PublicationState,
}

/// A publication: the bytes that it publishes, and where it stands.
pub struct PublicationView {
    pub agent_id: u128,
    pub sync: DirectorySync,
    pub limits: StoreLimits,
    pub head: Seq<u8>,
    pub definition: Seq<u8>,
    pub state: PublicationStateView,
}

impl View for PublicationState {
    type V = PublicationStateView;

    closed spec fn view(&self) -> PublicationStateView {
        match self {
            PublicationState::Stepping { segment, position, .. } => PublicationStateView::Stepping {
                segment: *segment,
                position: *position as nat,
            },
            PublicationState::Staging { allow_committed, error, close_required } =>
                PublicationStateView::Staging {
                allow_committed: *allow_committed,
                error: *error,
                close_required: *close_required,
            },
            PublicationState::Planned { plan, error, close_required } =>
                PublicationStateView::Planned {
                plan: *plan,
                error: *error,
                close_required: *close_required,
            },
            PublicationState::Removing { run, error, close_required } =>
                PublicationStateView::Removing {
                run: run@,
                error: *error,
                close_required: *close_required,
            },
            PublicationState::Finished(result) => PublicationStateView::Finished(result@),
        }
    }
}

impl View for Publication {
    type V = PublicationView;

    closed spec fn view(&self) -> PublicationView {
        PublicationView {
            agent_id: self.agent_id,
            sync: self.sync,
            limits: self.limits,
            head: self.head_bytes@,
            definition: self.definition_bytes@,
            state: self.state@,
        }
    }
}

/// A publication together with the stage of its barrier.
pub struct PublicationMoment {
    pub publication: PublicationView,
    pub stage: DurableCommitStage,
}

/// Whether a step belongs to the step before it, so that no cancellation is looked for in between.
pub open spec fn continues_group(step: PublicationStep) -> bool {
    step is InspectFile || step is WriteFile || step is SyncFile
}

impl PublicationStateView {
    pub open spec fn ordinary(error: DurableAgentCreateError, close_required: bool) -> Self {
        PublicationStateView::Finished(PublicationResultView::Ordinary { error, close_required })
    }

    pub open spec fn poisoned() -> Self {
        PublicationStateView::Finished(PublicationResultView::Poisoned)
    }

    pub open spec fn start(segment: PublicationSegment) -> Self {
        PublicationStateView::Stepping { segment, position: 0 }
    }

    /// A failure before the barrier: the staging is removed unless it turns out to be committed.
    pub open spec fn precommit_failure(error: DurableAgentCreateError) -> Self {
        PublicationStateView::Staging { allow_committed: false, error, close_required: false }
    }

    /// What follows a failed step.
    pub open spec fn after_failure(
        segment: PublicationSegment,
        position: nat,
        certainty: PublicationCertainty,
        stage: DurableCommitStage,
    ) -> Self {
        let unavailable = DurableAgentCreateError::StorageUnavailable;
        match segment {
            PublicationSegment::Precommit => Self::precommit_failure(
                if stage is Cancelled {
                    DurableAgentCreateError::Closing
                } else {
                    unavailable
                },
            ),
            PublicationSegment::Commit => Self::start(PublicationSegment::CommittedCheck),
            PublicationSegment::CommittedCheck => if position == 0 && certainty is NotPublished {
                PublicationStateView::Staging {
                    allow_committed: true,
                    error: unavailable,
                    close_required: false,
                }
            } else {
                Self::poisoned()
            },
            PublicationSegment::CommittedResync => Self::start(
                PublicationSegment::Publish { close_required: true },
            ),
            PublicationSegment::Publish { close_required } => Self::start(
                PublicationSegment::PublishedCheck {
                    close_required: close_required || position > 0,
                    error: unavailable,
                },
            ),
            PublicationSegment::PublishedCheck { close_required, error } => if certainty
                is NotPublished {
                PublicationStateView::Staging { allow_committed: true, error, close_required }
            } else {
                Self::poisoned()
            },
            PublicationSegment::PublishedResync { .. } => Self::start(
                PublicationSegment::PublishedRecovery { close_required: true },
            ),
            PublicationSegment::PublishedRecovery { .. } => Self::poisoned(),
        }
    }

    /// What follows the last step of a segment. Only here is the barrier crossed.
    pub open spec fn after_segment(segment: PublicationSegment, stage: DurableCommitStage) -> Self {
        match segment {
            PublicationSegment::Precommit => if stage is Pending {
                Self::start(PublicationSegment::Commit)
            } else {
                Self::precommit_failure(DurableAgentCreateError::Closing)
            },
            PublicationSegment::Commit => Self::start(
                PublicationSegment::Publish { close_required: false },
            ),
            PublicationSegment::CommittedCheck => Self::start(PublicationSegment::CommittedResync),
            PublicationSegment::CommittedResync => Self::start(
                PublicationSegment::Publish { close_required: true },
            ),
            PublicationSegment::PublishedCheck { close_required, .. } => Self::start(
                PublicationSegment::PublishedResync { close_required },
            ),
            PublicationSegment::PublishedResync { close_required } => Self::start(
                PublicationSegment::PublishedRecovery { close_required },
            ),
            PublicationSegment::Publish { .. } => Self::poisoned(),
            PublicationSegment::PublishedRecovery { .. } => Self::poisoned(),
        }
    }

    /// What follows the recovery of the published Agent.
    pub open spec fn after_recovery(
        segment: PublicationSegment,
        recovered: Result<AgentEntryView, PublicationCertainty>,
    ) -> Self {
        match (segment, recovered) {
            (PublicationSegment::Publish { close_required }, Ok(entry)) =>
                PublicationStateView::Finished(
                PublicationResultView::Published { entry, close_required },
            ),
            (PublicationSegment::Publish { .. }, Err(certainty)) => Self::start(
                PublicationSegment::PublishedCheck {
                    close_required: true,
                    error: publication_check::certainty_error(certainty),
                },
            ),
            (PublicationSegment::PublishedRecovery { close_required }, Ok(entry)) =>
                PublicationStateView::Finished(
                PublicationResultView::Published { entry, close_required },
            ),
            _ => Self::poisoned(),
        }
    }
}

impl PublicationView {
    pub open spec fn key(self) -> EntityKey {
        agent_key(self.agent_id)
    }

    /// The bytes that a file of the publication is to hold; a marker is empty.
    pub open spec fn content(self, location: StoreLocation) -> Seq<u8> {
        match location {
            StoreLocation::Head(_, _) => self.head,
            StoreLocation::Definition(_, _) => self.definition,
            _ => Seq::empty(),
        }
    }

    pub open spec fn steps(self, segment: PublicationSegment) -> Seq<PublicationStep> {
        segment_steps(segment, self.agent_id, self.sync)
    }

    pub open spec fn action(self) -> PublicationAction {
        match self.state {
            PublicationStateView::Stepping { segment, position } => PublicationAction::Perform(
                self.steps(segment)[position as int],
            ),
            PublicationStateView::Staging { .. } => PublicationAction::ObserveStaging,
            PublicationStateView::Planned { plan, .. } => PublicationAction::ObserveRemoval(plan),
            PublicationStateView::Removing { run, .. } => PublicationAction::Remove(run.action()),
            PublicationStateView::Finished(_) => PublicationAction::Finished,
        }
    }

    /// What an answer says of a step. An answer that does not belong to the step is a failure.
    pub open spec fn checked(self, step: PublicationStep, event: PublicationEvent) -> Result<
        (),
        PublicationCertainty,
    > {
        let failure = Err(PublicationCertainty::IndeterminatePoisoned);
        match event {
            PublicationEvent::Performed(succeeded) => if succeeded && !(step is InspectFile || step
                is ReadBack || step is Recover) {
                Ok(())
            } else {
                failure
            },
            PublicationEvent::Seen(lookup) => if step is InspectFile
                && physical::has_new_file_mode(lookup) {
                Ok(())
            } else {
                failure
            },
            PublicationEvent::ReadBack(observation) => match step {
                PublicationStep::ReadBack(location) => match observation.certainty(
                    self.content(location),
                    self.limits,
                ) {
                    PublicationCertainty::Published => Ok(()),
                    certainty => Err(certainty),
                },
                _ => failure,
            },
            _ => failure,
        }
    }

    pub open spec fn recovered(self, event: PublicationEvent) -> Result<
        AgentEntryView,
        PublicationCertainty,
    > {
        match event {
            PublicationEvent::Recovered(observation) => observation.outcome(
                self.agent_id,
                self.head,
                self.definition,
                self.limits,
            ),
            _ => Err(PublicationCertainty::IndeterminatePoisoned),
        }
    }

    /// The next state from one step of a segment.
    pub open spec fn stepped(
        self,
        segment: PublicationSegment,
        position: nat,
        event: PublicationEvent,
        stage: DurableCommitStage,
    ) -> PublicationStateView {
        let steps = self.steps(segment);
        let step = steps[position as int];
        if step is Recover {
            PublicationStateView::after_recovery(segment, self.recovered(event))
        } else {
            match self.checked(step, event) {
                Err(certainty) => PublicationStateView::after_failure(
                    segment,
                    position,
                    certainty,
                    stage,
                ),
                Ok(()) => if position + 1 >= steps.len() {
                    PublicationStateView::after_segment(segment, stage)
                } else if segment is Precommit && stage is Cancelled && !continues_group(
                    steps[position as int + 1],
                ) {
                    PublicationStateView::precommit_failure(DurableAgentCreateError::Closing)
                } else {
                    PublicationStateView::Stepping { segment, position: position + 1 }
                },
            }
        }
    }

    /// The next state.
    pub open spec fn next(self, event: PublicationEvent, stage: DurableCommitStage) -> PublicationStateView {
        match (self.state, event) {
            (PublicationStateView::Finished(_), _) => self.state,
            (PublicationStateView::Stepping { segment, position }, _) => self.stepped(
                segment,
                position,
                event,
                stage,
            ),
            (
                PublicationStateView::Staging { allow_committed, error, close_required },
                PublicationEvent::Staging(observation),
            ) => match observation.decision(self.agent_id, allow_committed, self.limits) {
                StagingDecision::Absent => PublicationStateView::ordinary(error, close_required),
                StagingDecision::Poisoned => PublicationStateView::poisoned(),
                StagingDecision::Remove(plan) => PublicationStateView::Planned {
                    plan,
                    error,
                    close_required,
                },
            },
            (
                PublicationStateView::Planned { plan, error, close_required },
                PublicationEvent::Removal(observation),
            ) => match cleanup_plan::entity_revalidation(plan, observation, self.limits) {
                Err(_) => PublicationStateView::poisoned(),
                Ok(()) => PublicationStateView::Removing {
                    run: CleanupRunView::start(cleanup_run::entity_steps(plan, self.sync)),
                    error,
                    close_required,
                },
            },
            (
                PublicationStateView::Removing { run, error, close_required },
                PublicationEvent::Cleanup(event),
            ) => match run.after(event).action() {
                CleanupAction::Finished(Ok(())) => PublicationStateView::ordinary(
                    error,
                    close_required,
                ),
                CleanupAction::Finished(Err(DurableOpenError::StorageUnavailable)) =>
                    PublicationStateView::ordinary(error, true),
                CleanupAction::Finished(Err(_)) => PublicationStateView::poisoned(),
                _ => PublicationStateView::Removing {
                    run: run.after(event),
                    error,
                    close_required,
                },
            },
            _ => PublicationStateView::poisoned(),
        }
    }

    /// Whether this event ends the last segment before the barrier.
    pub open spec fn reaches_barrier(self, event: PublicationEvent) -> bool {
        self.state matches PublicationStateView::Stepping { segment, position } && segment
            is Precommit && position + 1 >= self.steps(segment).len() && self.checked(
            self.steps(segment)[position as int],
            event,
        ) is Ok && !(self.steps(segment)[position as int] is Recover)
    }
}

impl PublicationMoment {
    /// The publication and its barrier after one event.
    pub open spec fn after(self, event: PublicationEvent) -> Self {
        PublicationMoment {
            publication: PublicationView {
                state: self.publication.next(event, self.stage),
                ..self.publication
            },
            stage: if self.publication.reaches_barrier(event) && self.stage is Pending {
                DurableCommitStage::Crossed
            } else {
                self.stage
            },
        }
    }
}

/// Where a publication starts: an encoding that fails, or documents that are not those of a first
/// generation, end it before anything is touched.
pub open spec fn begun(
    definition: AgentDefinitionView,
    head: AgentHeadView,
    head_bytes: Result<Vec<u8>, DurableStoreCodecError>,
    definition_bytes: Result<Vec<u8>, DurableStoreCodecError>,
    stage: DurableCommitStage,
) -> PublicationStateView {
    if head_bytes is Err {
        PublicationStateView::ordinary(
            open_error::publication_codec_error(head_bytes->Err_0),
            false,
        )
    } else if definition_bytes is Err {
        PublicationStateView::ordinary(
            open_error::publication_codec_error(definition_bytes->Err_0),
            false,
        )
    } else if !agent_chain::first_agent_generation_is_valid(
        definition.agent_id,
        head.storage_generation,
        head,
        definition,
    ) {
        PublicationStateView::poisoned()
    } else if stage is Cancelled {
        PublicationStateView::precommit_failure(DurableAgentCreateError::Closing)
    } else {
        PublicationStateView::start(PublicationSegment::Precommit)
    }
}

impl PublicationState {
    spec fn is_at_a_step(&self, agent_id: u128, sync: DirectorySync) -> bool {
        *self matches PublicationState::Stepping { segment, steps, position } ==> steps@
            == segment_steps(segment, agent_id, sync) && position < steps@.len()
    }

    fn ordinary(error: DurableAgentCreateError, close_required: bool) -> (state: Self)
        ensures
            state@ == PublicationStateView::ordinary(error, close_required),
    {
        PublicationState::Finished(PublicationWorkResult::Ordinary { error, close_required })
    }

    fn poisoned() -> (state: Self)
        ensures
            state@ == PublicationStateView::poisoned(),
    {
        PublicationState::Finished(PublicationWorkResult::Poisoned)
    }

    fn start(segment: PublicationSegment, agent_id: u128, sync: DirectorySync) -> (state: Self)
        ensures
            state@ == PublicationStateView::start(segment),
            state.is_at_a_step(agent_id, sync),
    {
        let steps = steps_of(segment, agent_id, sync);
        proof {
            lemma_segments_are_not_empty(segment, agent_id, sync);
        }
        PublicationState::Stepping { segment, steps, position: 0 }
    }

    /// Removes the staging of a publication that failed before the barrier.
    fn reconcile_precommit_failure(error: DurableAgentCreateError) -> (state: Self)
        ensures
            state@ == PublicationStateView::precommit_failure(error),
    {
        PublicationState::Staging { allow_committed: false, error, close_required: false }
    }

    /// Decides on the readback of `COMMITTED` and of its payload after a failure around it.
    fn reconcile_committed_failure(position: usize, certainty: PublicationCertainty) -> (state: Self)
        ensures
            state@ == PublicationStateView::after_failure(
                PublicationSegment::CommittedCheck,
                position as nat,
                certainty,
                DurableCommitStage::Crossed,
            ),
            state@ !is Stepping,
    {
        if position == 0 && matches!(certainty, PublicationCertainty::NotPublished) {
            PublicationState::Staging {
                allow_committed: true,
                error: DurableAgentCreateError::StorageUnavailable,
                close_required: false,
            }
        } else {
            PublicationState::poisoned()
        }
    }

    /// Decides on the readback of `PUBLISHED` after a failure around it.
    fn reconcile_published_failure(
        close_required: bool,
        error: DurableAgentCreateError,
        certainty: PublicationCertainty,
    ) -> (state: Self)
        ensures
            state@ == PublicationStateView::after_failure(
                PublicationSegment::PublishedCheck { close_required, error },
                0,
                certainty,
                DurableCommitStage::Crossed,
            ),
            state@ !is Stepping,
    {
        match certainty {
            PublicationCertainty::NotPublished => PublicationState::Staging {
                allow_committed: true,
                error,
                close_required,
            },
            _ => PublicationState::poisoned(),
        }
    }
}

/// Every segment has a step.
pub proof fn lemma_segments_are_not_empty(
    segment: PublicationSegment,
    agent_id: u128,
    sync: DirectorySync,
)
    ensures
        segment_steps(segment, agent_id, sync).len() > 0,
{
    reveal(segment_steps);
}

impl Publication {
    #[verifier::type_invariant]
    spec fn is_at_a_step(&self) -> bool {
        self.state.is_at_a_step(self.agent_id, self.sync)
    }

    /// Prepares a publication. The bytes are what the document codec made of the two documents.
    pub fn begin(
        definition: &AgentDefinition,
        head: &DurableAgentHead,
        head_bytes: Result<Vec<u8>, DurableStoreCodecError>,
        definition_bytes: Result<Vec<u8>, DurableStoreCodecError>,
        sync: DirectorySync,
        limits: StoreLimits,
        barrier: &DurableCommitBarrier,
    ) -> (publication: Self)
        ensures
            publication@ == (PublicationView {
                agent_id: definition@.agent_id,
                sync,
                limits,
                head: bytes_or_empty(head_bytes),
                definition: bytes_or_empty(definition_bytes),
                state: begun(definition@, head@, head_bytes, definition_bytes, barrier@),
            }),
    {
        let agent_id: u128 = definition.agent_id.value();
        let mut state = PublicationState::poisoned();
        let head_failure: Option<DurableStoreCodecError> = codec_failure(&head_bytes);
        let definition_failure: Option<DurableStoreCodecError> = codec_failure(&definition_bytes);
        if let Some(error) = head_failure {
            state =
            PublicationState::Finished(
                ordinary_publication_error(map_publication_codec_error(error)),
            );
        } else if let Some(error) = definition_failure {
            state =
            PublicationState::Finished(
                ordinary_publication_error(map_publication_codec_error(error)),
            );
        } else if validate_generation_one_agent_semantics(
            agent_id,
            head.storage_generation(),
            head,
            definition,
        ).is_ok() {
            if barrier.is_cancelled() {
                state = PublicationState::reconcile_precommit_failure(
                    DurableAgentCreateError::Closing,
                );
            } else {
                state = PublicationState::start(PublicationSegment::Precommit, agent_id, sync);
            }
        }
        Publication {
            agent_id,
            sync,
            limits,
            head_bytes: take_bytes(head_bytes),
            definition_bytes: take_bytes(definition_bytes),
            state,
        }
    }

    /// What to do next.
    pub fn action(&self) -> (action: PublicationAction)
        ensures
            action == self@.action(),
    {
        proof {
            use_type_invariant(&*self);
        }
        match &self.state {
            PublicationState::Stepping { steps, position, .. } => PublicationAction::Perform(
                steps[*position],
            ),
            PublicationState::Staging { .. } => PublicationAction::ObserveStaging,
            PublicationState::Planned { plan, .. } => PublicationAction::ObserveRemoval(*plan),
            PublicationState::Removing { run, .. } => PublicationAction::Remove(run.action()),
            PublicationState::Finished(_) => PublicationAction::Finished,
        }
    }

    /// The bytes that a file of the publication is to hold.
    pub fn content(&self, location: StoreLocation) -> (bytes: &[u8])
        ensures
            bytes@ == self@.content(location),
    {
        match location {
            StoreLocation::Head(_, _) => self.head_bytes.as_slice(),
            StoreLocation::Definition(_, _) => self.definition_bytes.as_slice(),
            _ => &[],
        }
    }

    /// Whether the publication has come to its end.
    pub fn is_finished(&self) -> (finished: bool)
        ensures
            finished == (self@.state is Finished),
    {
        matches!(&self.state, PublicationState::Finished(_))
    }

    /// The outcome of a finished publication; one that is given up halfway has an unknown outcome.
    pub fn into_result(self) -> (result: PublicationWorkResult)
        ensures
            result@ == match self@.state {
                PublicationStateView::Finished(result) => result,
                _ => PublicationResultView::Poisoned,
            },
    {
        match self.state {
            PublicationState::Finished(result) => result,
            _ => PublicationWorkResult::Poisoned,
        }
    }

    /// What an answer says of the step that asked for it.
    fn check(
        step: PublicationStep,
        event: PublicationEvent,
        head_bytes: &Vec<u8>,
        definition_bytes: &Vec<u8>,
        limits: StoreLimits,
        Ghost(publication): Ghost<PublicationView>,
    ) -> (result: Result<(), PublicationCertainty>)
        requires
            publication.head == head_bytes@,
            publication.definition == definition_bytes@,
            publication.limits == limits,
        ensures
            result == publication.checked(step, event),
    {
        let failure = Err(PublicationCertainty::IndeterminatePoisoned);
        match event {
            PublicationEvent::Performed(succeeded) => match step {
                PublicationStep::InspectFile(_)
                | PublicationStep::ReadBack(_)
                | PublicationStep::Recover => failure,
                _ => if succeeded {
                    Ok(())
                } else {
                    failure
                },
            },
            PublicationEvent::Seen(lookup) => match step {
                PublicationStep::InspectFile(_) => if validate_new_file_mode(lookup).is_ok() {
                    Ok(())
                } else {
                    failure
                },
                _ => failure,
            },
            PublicationEvent::ReadBack(observation) => match step {
                PublicationStep::ReadBack(location) => {
                    let certainty = match location {
                        StoreLocation::Head(_, _) => exact_readback_state(
                            observation,
                            head_bytes,
                            limits,
                        ),
                        StoreLocation::Definition(_, _) => exact_readback_state(
                            observation,
                            definition_bytes,
                            limits,
                        ),
                        _ => {
                            let empty: Vec<u8> = Vec::new();
                            assert(empty@ =~= Seq::empty());
                            exact_readback_state(observation, &empty, limits)
                        },
                    };
                    match certainty {
                        PublicationCertainty::Published => Ok(()),
                        _ => Err(certainty),
                    }
                },
                _ => failure,
            },
            _ => failure,
        }
    }

    /// The state after a failed step.
    fn after_failure(
        segment: PublicationSegment,
        position: usize,
        certainty: PublicationCertainty,
        agent_id: u128,
        sync: DirectorySync,
        barrier: &DurableCommitBarrier,
    ) -> (state: PublicationState)
        ensures
            state@ == PublicationStateView::after_failure(
                segment,
                position as nat,
                certainty,
                barrier@,
            ),
            state.is_at_a_step(agent_id, sync),
    {
        match segment {
            PublicationSegment::Precommit => PublicationState::reconcile_precommit_failure(
                if barrier.is_cancelled() {
                    DurableAgentCreateError::Closing
                } else {
                    DurableAgentCreateError::StorageUnavailable
                },
            ),
            PublicationSegment::Commit => PublicationState::start(
                PublicationSegment::CommittedCheck,
                agent_id,
                sync,
            ),
            PublicationSegment::CommittedCheck => PublicationState::reconcile_committed_failure(
                position,
                certainty,
            ),
            PublicationSegment::CommittedResync => PublicationState::start(
                PublicationSegment::Publish { close_required: true },
                agent_id,
                sync,
            ),
            PublicationSegment::Publish { close_required } => PublicationState::start(
                PublicationSegment::PublishedCheck {
                    close_required: close_required || position > 0,
                    error: DurableAgentCreateError::StorageUnavailable,
                },
                agent_id,
                sync,
            ),
            PublicationSegment::PublishedCheck { close_required, error } =>
                PublicationState::reconcile_published_failure(close_required, error, certainty),
            PublicationSegment::PublishedResync { .. } => PublicationState::start(
                PublicationSegment::PublishedRecovery { close_required: true },
                agent_id,
                sync,
            ),
            PublicationSegment::PublishedRecovery { .. } => PublicationState::poisoned(),
        }
    }

    /// The state after the last step of a segment.
    fn after_segment(
        segment: PublicationSegment,
        agent_id: u128,
        sync: DirectorySync,
        barrier: &mut DurableCommitBarrier,
    ) -> (state: PublicationState)
        ensures
            state@ == PublicationStateView::after_segment(segment, old(barrier)@),
            state.is_at_a_step(agent_id, sync),
            final(barrier)@ == if segment is Precommit && old(barrier)@ is Pending {
                DurableCommitStage::Crossed
            } else {
                old(barrier)@
            },
    {
        match segment {
            PublicationSegment::Precommit => {
                let crossed = PublicationState::start(PublicationSegment::Commit, agent_id, sync);
                if barrier.try_cross() {
                    crossed
                } else {
                    PublicationState::reconcile_precommit_failure(DurableAgentCreateError::Closing)
                }
            },
            PublicationSegment::Commit => PublicationState::start(
                PublicationSegment::Publish { close_required: false },
                agent_id,
                sync,
            ),
            PublicationSegment::CommittedCheck => PublicationState::start(
                PublicationSegment::CommittedResync,
                agent_id,
                sync,
            ),
            PublicationSegment::CommittedResync => PublicationState::start(
                PublicationSegment::Publish { close_required: true },
                agent_id,
                sync,
            ),
            PublicationSegment::PublishedCheck { close_required, .. } => PublicationState::start(
                PublicationSegment::PublishedResync { close_required },
                agent_id,
                sync,
            ),
            PublicationSegment::PublishedResync { close_required } => PublicationState::start(
                PublicationSegment::PublishedRecovery { close_required },
                agent_id,
                sync,
            ),
            PublicationSegment::Publish { .. } | PublicationSegment::PublishedRecovery { .. } =>
                PublicationState::poisoned(),
        }
    }

    /// The state after the published Agent was read as a whole.
    fn after_recovery(
        segment: PublicationSegment,
        event: PublicationEvent,
        agent_id: u128,
        sync: DirectorySync,
        head_bytes: &Vec<u8>,
        definition_bytes: &Vec<u8>,
        limits: StoreLimits,
        Ghost(publication): Ghost<PublicationView>,
    ) -> (state: PublicationState)
        requires
            publication.agent_id == agent_id,
            publication.head == head_bytes@,
            publication.definition == definition_bytes@,
            publication.limits == limits,
        ensures
            state@ == PublicationStateView::after_recovery(segment, publication.recovered(event)),
            state.is_at_a_step(agent_id, sync),
    {
        let recovered = match event {
            PublicationEvent::Recovered(observation) => recover_published_agent(
                observation,
                agent_id,
                head_bytes,
                definition_bytes,
                limits,
            ),
            _ => Err(PublicationCertainty::IndeterminatePoisoned),
        };
        match (segment, recovered) {
            (PublicationSegment::Publish { close_required }, Ok(entry)) =>
                PublicationState::Finished(
                PublicationWorkResult::Published { entry, close_required },
            ),
            (PublicationSegment::Publish { .. }, Err(certainty)) => PublicationState::start(
                PublicationSegment::PublishedCheck {
                    close_required: true,
                    error: publication_error_for_certainty(certainty),
                },
                agent_id,
                sync,
            ),
            (PublicationSegment::PublishedRecovery { close_required }, Ok(entry)) =>
                PublicationState::Finished(
                PublicationWorkResult::Published { entry, close_required },
            ),
            _ => PublicationState::poisoned(),
        }
    }

    /// The state after one removal step.
    fn after_removal_step(
        run: CleanupRun,
        event: CleanupEvent,
        error: DurableAgentCreateError,
        close_required: bool,
    ) -> (state: PublicationState)
        ensures
            state@ == match run@.after(event).action() {
                CleanupAction::Finished(Ok(())) => PublicationStateView::ordinary(
                    error,
                    close_required,
                ),
                CleanupAction::Finished(Err(DurableOpenError::StorageUnavailable)) =>
                    PublicationStateView::ordinary(error, true),
                CleanupAction::Finished(Err(_)) => PublicationStateView::poisoned(),
                _ => PublicationStateView::Removing {
                    run: run@.after(event),
                    error,
                    close_required,
                },
            },
    {
        let run = run.handle(event);
        match run.action() {
            CleanupAction::Finished(Ok(())) => PublicationState::ordinary(error, close_required),
            CleanupAction::Finished(Err(DurableOpenError::StorageUnavailable)) =>
                PublicationState::ordinary(error, true),
            CleanupAction::Finished(Err(_)) => PublicationState::poisoned(),
            _ => PublicationState::Removing { run, error, close_required },
        }
    }

    /// Takes in what came of the last action. The barrier is crossed here, directly before the
    /// creation of `COMMITTED` is asked for.
    pub fn handle(self, event: PublicationEvent, barrier: &mut DurableCommitBarrier) -> (next: Self)
        ensures
            (PublicationMoment { publication: next@, stage: final(barrier)@ }) == (
            PublicationMoment { publication: self@, stage: old(barrier)@ }).after(event),
    {
        proof {
            use_type_invariant(&self);
        }
        let ghost before = self@;
        let Publication { agent_id, sync, limits, head_bytes, definition_bytes, state } = self;
        let state = match (state, event) {
            (PublicationState::Finished(result), _) => PublicationState::Finished(result),
            (PublicationState::Stepping { segment, steps, position }, event) => {
                let count: usize = steps.len();
                let step: PublicationStep = steps[position];
                if let PublicationStep::Recover = step {
                    Publication::after_recovery(
                        segment,
                        event,
                        agent_id,
                        sync,
                        &head_bytes,
                        &definition_bytes,
                        limits,
                        Ghost(before),
                    )
                } else {
                    match Publication::check(
                        step,
                        event,
                        &head_bytes,
                        &definition_bytes,
                        limits,
                        Ghost(before),
                    ) {
                        Err(certainty) => Publication::after_failure(
                            segment,
                            position,
                            certainty,
                            agent_id,
                            sync,
                            barrier,
                        ),
                        Ok(()) => {
                            if position + 1 >= count {
                                Publication::after_segment(segment, agent_id, sync, barrier)
                            } else if matches!(segment, PublicationSegment::Precommit)
                                && barrier.is_cancelled() && !is_group_continuation(
                                steps[position + 1],
                            ) {
                                PublicationState::reconcile_precommit_failure(
                                    DurableAgentCreateError::Closing,
                                )
                            } else {
                                PublicationState::Stepping { segment, steps, position: position + 1 }
                            }
                        },
                    }
                }
            },
            (
                PublicationState::Staging { allow_committed, error, close_required },
                PublicationEvent::Staging(observation),
            ) => match cleanup_operation_owned_agent_staging(
                &observation,
                agent_id,
                allow_committed,
                limits,
            ) {
                StagingDecision::Absent => PublicationState::ordinary(error, close_required),
                StagingDecision::Poisoned => PublicationState::poisoned(),
                StagingDecision::Remove(plan) => PublicationState::Planned {
                    plan,
                    error,
                    close_required,
                },
            },
            (
                PublicationState::Planned { plan, error, close_required },
                PublicationEvent::Removal(observation),
            ) => match finalize_deferred_unpublished_entity_cleanup(
                &plan,
                &observation,
                limits,
                sync,
            ) {
                Err(_) => PublicationState::poisoned(),
                Ok(run) => PublicationState::Removing { run, error, close_required },
            },
            (
                PublicationState::Removing { run, error, close_required },
                PublicationEvent::Cleanup(event),
            ) => Publication::after_removal_step(run, event, error, close_required),
            _ => PublicationState::poisoned(),
        };
        Publication { agent_id, sync, limits, head_bytes, definition_bytes, state }
    }
}

fn is_group_continuation(step: PublicationStep) -> (continues: bool)
    ensures
        continues == continues_group(step),
{
    matches!(
        step,
        PublicationStep::InspectFile(_)
        | PublicationStep::WriteFile(_)
        | PublicationStep::SyncFile(_)
    )
}

pub open spec fn bytes_or_empty(bytes: Result<Vec<u8>, DurableStoreCodecError>) -> Seq<u8> {
    match bytes {
        Ok(bytes) => bytes@,
        Err(_) => Seq::empty(),
    }
}

fn take_bytes(bytes: Result<Vec<u8>, DurableStoreCodecError>) -> (taken: Vec<u8>)
    ensures
        taken@ == bytes_or_empty(bytes),
{
    match bytes {
        Ok(bytes) => bytes,
        Err(_) => {
            let empty: Vec<u8> = Vec::new();
            assert(empty@ =~= Seq::empty());
            empty
        },
    }
}

fn codec_failure(bytes: &Result<Vec<u8>, DurableStoreCodecError>) -> (failure: Option<
    DurableStoreCodecError,
>)
    ensures
        failure == match *bytes {
            Ok(_) => None,
            Err(error) => Some(error),
        },
{
    match bytes {
        Ok(_) => None,
        Err(error) => Some(*error),
    }
}

} // verus!
