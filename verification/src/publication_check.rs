//! What a publication can be sure of: exact readbacks, the published entity as a whole, and the
//! staging that a failed publication left.

use crate::agent_chain;
use crate::agent_chain::{
    recover_agent_generation_chain, AgentEntryView, DurableAgentCatalogEntry,
};
use crate::barrier::DurableCommitStage;
use crate::cleanup_plan;
use crate::cleanup_plan::{
    deferred_unpublished_entity_cleanup, DeferredUnpublishedEntityCleanup,
};
use crate::entity_scan;
use crate::entity_scan::{
    scan_agent_entity, EntityKind, EntityObservation, EntityScanModel, ScannedEntity,
};
use crate::lifecycle::same_bytes;
use crate::listing::GENERATION_ENTRY_CAP;
use crate::location::EntityKey;
use crate::open_error::{DurableAgentCreateError, DurableOpenError, RuntimeTaskError};
use crate::physical;
use crate::physical::{
    read_durable_document, validate_cleanup_zero_regular_file, DocumentObservation, Lookup,
    LookupError, StoreLimits,
};
use crate::recovery;
use crate::recovery::{
    attach_agent_documents, validate_unpublished_agent_candidate, AgentDocuments,
};
use std::collections::VecDeque;
use vstd::prelude::*;

verus! {

/// The four physical certainties of a publication. Only `NotPublished` leads to an ordinary failure;
/// after the two poisoned ones nothing is changed or removed any more.
#[derive(Clone, Copy, Debug, PartialEq, Eq, Structural)]
pub enum PublicationCertainty {
    NotPublished,
    Published,
    CommittedCorruptPoisoned,
    IndeterminatePoisoned,
}

/// One attempt to read a file of a publication back: the bounded read, and a lookup of the path that
/// counts only where the read failed.
pub struct ReadbackObservation {
    pub document: DocumentObservation,
    pub lookup: Lookup,
}

impl ReadbackObservation {
    /// What the readback says of a file that should hold exactly `expected`.
    pub open spec fn certainty(
        self,
        expected: Seq<u8>,
        limits: StoreLimits,
    ) -> PublicationCertainty {
        match self.document.outcome(limits) {
            Ok(actual) => if actual == expected {
                PublicationCertainty::Published
            } else {
                PublicationCertainty::CommittedCorruptPoisoned
            },
            Err(error) => match self.lookup {
                Err(LookupError::NotFound) => PublicationCertainty::NotPublished,
                Err(LookupError::Unreadable) => PublicationCertainty::IndeterminatePoisoned,
                Ok(_) => if error is DurableStateCorrupt || error is DurableStateTooLarge {
                    PublicationCertainty::CommittedCorruptPoisoned
                } else {
                    PublicationCertainty::IndeterminatePoisoned
                },
            },
        }
    }
}

pub fn exact_readback_state(
    observation: ReadbackObservation,
    expected: &Vec<u8>,
    limits: StoreLimits,
) -> (certainty: PublicationCertainty)
    ensures
        certainty == observation.certainty(expected@, limits),
{
    let lookup: Lookup = observation.lookup;
    match read_durable_document(observation.document, limits) {
        Ok(actual) => if same_bytes(&actual, expected) {
            PublicationCertainty::Published
        } else {
            PublicationCertainty::CommittedCorruptPoisoned
        },
        Err(error) => match lookup {
            Err(LookupError::NotFound) => PublicationCertainty::NotPublished,
            Err(LookupError::Unreadable) => PublicationCertainty::IndeterminatePoisoned,
            Ok(_) => match error {
                DurableOpenError::DurableStateCorrupt | DurableOpenError::DurableStateTooLarge =>
                    PublicationCertainty::CommittedCorruptPoisoned,
                _ => PublicationCertainty::IndeterminatePoisoned,
            },
        },
    }
}

pub open spec fn certainty_error(certainty: PublicationCertainty) -> DurableAgentCreateError {
    match certainty {
        PublicationCertainty::NotPublished => DurableAgentCreateError::StorageUnavailable,
        PublicationCertainty::Published => DurableAgentCreateError::StorageUnavailable,
        PublicationCertainty::CommittedCorruptPoisoned =>
            DurableAgentCreateError::InternalDispatchUnavailable,
        PublicationCertainty::IndeterminatePoisoned =>
            DurableAgentCreateError::InternalDispatchUnavailable,
    }
}

pub fn publication_error_for_certainty(certainty: PublicationCertainty) -> (error:
    DurableAgentCreateError)
    ensures
        error == certainty_error(certainty),
{
    match certainty {
        PublicationCertainty::NotPublished | PublicationCertainty::Published =>
            DurableAgentCreateError::StorageUnavailable,
        PublicationCertainty::CommittedCorruptPoisoned
        | PublicationCertainty::IndeterminatePoisoned =>
            DurableAgentCreateError::InternalDispatchUnavailable,
    }
}

/// Everything that is read of an Agent that should now be published.
pub struct PublishedAgentObservation {
    pub published: ReadbackObservation,
    pub head: ReadbackObservation,
    pub definition: ReadbackObservation,
    pub entity: EntityObservation,
    pub documents: VecDeque<AgentDocuments>,
}

/// A payload that is not there, or not exact, is corrupt once the Agent is published.
pub open spec fn payload_certainty(certainty: PublicationCertainty) -> Result<
    (),
    PublicationCertainty,
> {
    match certainty {
        PublicationCertainty::Published => Ok(()),
        PublicationCertainty::IndeterminatePoisoned => Err(
            PublicationCertainty::IndeterminatePoisoned,
        ),
        _ => Err(PublicationCertainty::CommittedCorruptPoisoned),
    }
}

/// Only unavailable storage leaves a whole-entity check open; every other failure is corruption.
pub open spec fn recovery_certainty(error: DurableOpenError) -> PublicationCertainty {
    if error is StorageUnavailable {
        PublicationCertainty::IndeterminatePoisoned
    } else {
        PublicationCertainty::CommittedCorruptPoisoned
    }
}

impl PublishedAgentObservation {
    /// The entry of the published Agent: the marker and both documents read back exactly, the
    /// entity directory scans as published without staging, and its chain recovers.
    pub open spec fn outcome(
        self,
        agent_id: u128,
        head: Seq<u8>,
        definition: Seq<u8>,
        limits: StoreLimits,
    ) -> Result<AgentEntryView, PublicationCertainty> {
        let published = self.published.certainty(Seq::empty(), limits);
        let head_check = payload_certainty(self.head.certainty(head, limits));
        let definition_check = payload_certainty(self.definition.certainty(definition, limits));
        if published !is Published {
            Err(published)
        } else if head_check is Err {
            Err(head_check->Err_0)
        } else if definition_check is Err {
            Err(definition_check->Err_0)
        } else {
            match entity_scan::entity_outcome(
                self.entity,
                EntityKind::Agent,
                GENERATION_ENTRY_CAP,
                limits,
            ) {
                Err(error) => Err(recovery_certainty(error)),
                Ok(EntityScanModel::Unpublished(_)) => Err(
                    PublicationCertainty::CommittedCorruptPoisoned,
                ),
                Ok(EntityScanModel::Published { committed, markerless }) => if markerless is Some {
                    Err(PublicationCertainty::CommittedCorruptPoisoned)
                } else {
                    match agent_chain::agent_chain_outcome(
                        agent_id,
                        recovery::agent_generation_views(committed, self.documents@),
                        false,
                    ) {
                        Err(error) => Err(recovery_certainty(error)),
                        Ok(entry) => Ok(entry),
                    }
                },
            }
        }
    }
}

fn map_recovery_error(error: DurableOpenError) -> (certainty: PublicationCertainty)
    ensures
        certainty == recovery_certainty(error),
{
    match error {
        DurableOpenError::StorageUnavailable => PublicationCertainty::IndeterminatePoisoned,
        DurableOpenError::DurableStateTooLarge
        | DurableOpenError::DurableStateCorrupt
        | DurableOpenError::StoreInUse
        | DurableOpenError::UnsupportedStoreFormat =>
            PublicationCertainty::CommittedCorruptPoisoned,
    }
}

fn check_payload(certainty: PublicationCertainty) -> (result: Result<(), PublicationCertainty>)
    ensures
        result == payload_certainty(certainty),
{
    match certainty {
        PublicationCertainty::Published => Ok(()),
        PublicationCertainty::IndeterminatePoisoned => Err(
            PublicationCertainty::IndeterminatePoisoned,
        ),
        _ => Err(PublicationCertainty::CommittedCorruptPoisoned),
    }
}

pub open spec fn entry_or_certainty(
    result: Result<DurableAgentCatalogEntry, PublicationCertainty>,
) -> Result<AgentEntryView, PublicationCertainty> {
    match result {
        Ok(entry) => Ok(entry@),
        Err(certainty) => Err(certainty),
    }
}

pub fn recover_published_agent(
    observation: PublishedAgentObservation,
    agent_id: u128,
    head_bytes: &Vec<u8>,
    definition_bytes: &Vec<u8>,
    limits: StoreLimits,
) -> (result: Result<DurableAgentCatalogEntry, PublicationCertainty>)
    ensures
        entry_or_certainty(result) == observation.outcome(
            agent_id,
            head_bytes@,
            definition_bytes@,
            limits,
        ),
{
    let PublishedAgentObservation { published, head, definition, entity, documents } = observation;
    let empty: Vec<u8> = Vec::new();
    assert(empty@ =~= Seq::empty());
    let published_state = exact_readback_state(published, &empty, limits);
    if published_state != PublicationCertainty::Published {
        return Err(published_state);
    }
    match check_payload(exact_readback_state(head, head_bytes, limits)) {
        Err(certainty) => return Err(certainty),
        Ok(()) => {},
    }
    match check_payload(exact_readback_state(definition, definition_bytes, limits)) {
        Err(certainty) => return Err(certainty),
        Ok(()) => {},
    }
    let scan = match scan_agent_entity(&entity, GENERATION_ENTRY_CAP, limits) {
        Err(error) => return Err(map_recovery_error(error)),
        Ok(ScannedEntity::Unpublished(_)) => return Err(
            PublicationCertainty::CommittedCorruptPoisoned,
        ),
        Ok(ScannedEntity::Published(scan)) => scan,
    };
    if scan.markerless.is_some() {
        return Err(PublicationCertainty::CommittedCorruptPoisoned);
    }
    let generations = attach_agent_documents(&scan.committed, documents);
    match recover_agent_generation_chain(generations, None, agent_id) {
        Ok(recovered) => Ok(recovered.entry),
        Err(error) => Err(map_recovery_error(error)),
    }
}

/// Everything that is read of the staging of a failed publication. The entity and its documents
/// count only where the entity directory exists.
pub struct StagingObservation {
    pub reservation: Lookup,
    pub directory: Lookup,
    pub entity: EntityObservation,
    pub documents: Option<AgentDocuments>,
}

/// What is to be done with the staging of a failed publication.
#[derive(Clone, Copy, PartialEq, Eq, Structural)]
pub enum StagingDecision {
    /// There is nothing to remove.
    Absent,
    /// What is there may not be touched.
    Poisoned,
    /// Exactly this is to be removed, once it has been looked at again.
    Remove(DeferredUnpublishedEntityCleanup),
}

impl StagingObservation {
    pub open spec fn decision(
        self,
        agent_id: u128,
        allow_committed: bool,
        limits: StoreLimits,
    ) -> StagingDecision {
        match (physical::cleanup_zero_shape(self.reservation), self.directory) {
            (Err(_), _) => StagingDecision::Poisoned,
            (Ok(_), Err(LookupError::NotFound)) => StagingDecision::Absent,
            (Ok(_), Err(LookupError::Unreadable)) => StagingDecision::Poisoned,
            (Ok(reservation_shape), Ok(_)) => match entity_scan::entity_outcome(
                self.entity,
                EntityKind::Agent,
                GENERATION_ENTRY_CAP,
                limits,
            ) {
                Ok(EntityScanModel::Unpublished(files)) => if recovery::agent_candidate_outcome(
                    agent_id,
                    files,
                    self.documents,
                ) is Err || (!allow_committed && files.is_committed()) {
                    StagingDecision::Poisoned
                } else {
                    StagingDecision::Remove(
                        cleanup_plan::entity_cleanup(
                            EntityKey { kind: EntityKind::Agent, id: agent_id },
                            files,
                            GENERATION_ENTRY_CAP,
                            reservation_shape,
                        ),
                    )
                },
                _ => StagingDecision::Poisoned,
            },
        }
    }
}

/// Decides what to do with the staging that this operation itself made. A published entity, or a
/// committed one before the barrier was crossed, is never removed.
pub fn cleanup_operation_owned_agent_staging(
    observation: &StagingObservation,
    agent_id: u128,
    allow_committed: bool,
    limits: StoreLimits,
) -> (decision: StagingDecision)
    ensures
        decision == observation.decision(agent_id, allow_committed, limits),
{
    let reservation_shape = match validate_cleanup_zero_regular_file(observation.reservation) {
        Ok(shape) => shape,
        Err(_) => return StagingDecision::Poisoned,
    };
    match observation.directory {
        Err(LookupError::NotFound) => return StagingDecision::Absent,
        Err(LookupError::Unreadable) => return StagingDecision::Poisoned,
        Ok(_) => {},
    }
    let files = match scan_agent_entity(&observation.entity, GENERATION_ENTRY_CAP, limits) {
        Ok(ScannedEntity::Unpublished(files)) => files,
        Ok(ScannedEntity::Published(_)) | Err(_) => return StagingDecision::Poisoned,
    };
    if validate_unpublished_agent_candidate(agent_id, &files, &observation.documents).is_err() {
        return StagingDecision::Poisoned;
    }
    if !allow_committed && files.has_committed() {
        return StagingDecision::Poisoned;
    }
    StagingDecision::Remove(
        deferred_unpublished_entity_cleanup(
            EntityKey { kind: EntityKind::Agent, id: agent_id },
            files,
            GENERATION_ENTRY_CAP,
            reservation_shape,
        ),
    )
}

/// What a publication hands to its owner.
pub enum PublicationWorkResult {
    Published { entry: DurableAgentCatalogEntry, close_required: bool },
    Ordinary { error: DurableAgentCreateError, close_required: bool },
    Poisoned,
}

/// A result with its entry as a model.
pub enum PublicationResultView {
    Published { entry: AgentEntryView, close_required: bool },
    Ordinary { error: DurableAgentCreateError, close_required: bool },
    Poisoned,
}

impl View for PublicationWorkResult {
    type V = PublicationResultView;

    open spec fn view(&self) -> PublicationResultView {
        match self {
            PublicationWorkResult::Published { entry, close_required } =>
                PublicationResultView::Published { entry: entry@, close_required: *close_required },
            PublicationWorkResult::Ordinary { error, close_required } =>
                PublicationResultView::Ordinary { error: *error, close_required: *close_required },
            PublicationWorkResult::Poisoned => PublicationResultView::Poisoned,
        }
    }
}

impl PublicationResultView {
    /// The result of a publication whose cancellation came before the barrier was crossed.
    pub open spec fn closing(self) -> Self {
        match self {
            PublicationResultView::Published { entry, .. } => PublicationResultView::Published {
                entry,
                close_required: true,
            },
            PublicationResultView::Ordinary { .. } => PublicationResultView::Ordinary {
                error: DurableAgentCreateError::Closing,
                close_required: false,
            },
            PublicationResultView::Poisoned => PublicationResultView::Poisoned,
        }
    }

    /// The result of a publication whose cancellation came too late.
    pub open spec fn closed(self) -> Self {
        match self {
            PublicationResultView::Published { entry, .. } => PublicationResultView::Published {
                entry,
                close_required: true,
            },
            PublicationResultView::Ordinary { error, .. } => PublicationResultView::Ordinary {
                error,
                close_required: true,
            },
            PublicationResultView::Poisoned => PublicationResultView::Poisoned,
        }
    }
}

pub fn ordinary_publication_error(error: DurableAgentCreateError) -> (result: PublicationWorkResult)
    ensures
        result@ == (PublicationResultView::Ordinary { error, close_required: false }),
{
    PublicationWorkResult::Ordinary { error, close_required: false }
}

/// A job that broke off behind the barrier, or panicked anywhere, has an unknown outcome.
pub open spec fn task_failure(error: RuntimeTaskError, stage: DurableCommitStage) -> PublicationResultView {
    match (stage, error) {
        (DurableCommitStage::Crossed, _) => PublicationResultView::Poisoned,
        (_, RuntimeTaskError::OwnerClosing) => PublicationResultView::Ordinary {
            error: DurableAgentCreateError::Closing,
            close_required: false,
        },
        (_, RuntimeTaskError::WorkerUnavailable) => PublicationResultView::Ordinary {
            error: DurableAgentCreateError::StorageUnavailable,
            close_required: false,
        },
        (_, RuntimeTaskError::OperationPanicked) => PublicationResultView::Poisoned,
    }
}

pub fn classify_publication_task_error(error: RuntimeTaskError, stage: DurableCommitStage) -> (result:
    PublicationWorkResult)
    ensures
        result@ == task_failure(error, stage),
{
    match stage {
        DurableCommitStage::Crossed => PublicationWorkResult::Poisoned,
        DurableCommitStage::Pending | DurableCommitStage::Cancelled => match error {
            RuntimeTaskError::OwnerClosing => ordinary_publication_error(
                DurableAgentCreateError::Closing,
            ),
            RuntimeTaskError::WorkerUnavailable => ordinary_publication_error(
                DurableAgentCreateError::StorageUnavailable,
            ),
            RuntimeTaskError::OperationPanicked => PublicationWorkResult::Poisoned,
        },
    }
}

pub fn force_publication_closing(result: PublicationWorkResult) -> (forced: PublicationWorkResult)
    ensures
        forced@ == result@.closing(),
{
    match result {
        PublicationWorkResult::Published { entry, .. } => PublicationWorkResult::Published {
            entry,
            close_required: true,
        },
        PublicationWorkResult::Ordinary { .. } => PublicationWorkResult::Ordinary {
            error: DurableAgentCreateError::Closing,
            close_required: false,
        },
        PublicationWorkResult::Poisoned => PublicationWorkResult::Poisoned,
    }
}

pub fn force_publication_close(result: PublicationWorkResult) -> (forced: PublicationWorkResult)
    ensures
        forced@ == result@.closed(),
{
    match result {
        PublicationWorkResult::Published { entry, .. } => PublicationWorkResult::Published {
            entry,
            close_required: true,
        },
        PublicationWorkResult::Ordinary { error, .. } => PublicationWorkResult::Ordinary {
            error,
            close_required: true,
        },
        PublicationWorkResult::Poisoned => PublicationWorkResult::Poisoned,
    }
}

/// How the wait for a publication ended.
#[derive(Clone, Copy, Debug, PartialEq, Eq, Structural)]
pub enum PublicationWait {
    /// The job ended before any close was requested.
    Undisturbed,
    /// A close was requested and won against the barrier.
    CancellationWon,
    /// A close was requested behind the barrier.
    CancellationLost,
}

/// What the owner makes of a finished publication job.
pub open spec fn settled_publication(
    result: Result<PublicationWorkResult, RuntimeTaskError>,
    stage: DurableCommitStage,
    wait: PublicationWait,
) -> PublicationResultView {
    let settled = match result {
        Ok(result) => result@,
        Err(error) => task_failure(error, stage),
    };
    match wait {
        PublicationWait::Undisturbed => settled,
        PublicationWait::CancellationWon => settled.closing(),
        PublicationWait::CancellationLost => settled.closed(),
    }
}

/// Settles a publication job: what it returned, or why it broke off, and how the wait for it ended.
pub fn settle_publication(
    result: Result<PublicationWorkResult, RuntimeTaskError>,
    stage: DurableCommitStage,
    wait: PublicationWait,
) -> (settled: PublicationWorkResult)
    ensures
        settled@ == settled_publication(result, stage, wait),
{
    let settled = match result {
        Ok(result) => result,
        Err(error) => classify_publication_task_error(error, stage),
    };
    match wait {
        PublicationWait::Undisturbed => settled,
        PublicationWait::CancellationWon => force_publication_closing(settled),
        PublicationWait::CancellationLost => force_publication_close(settled),
    }
}

/// Once a close is requested, whatever was published is still handed over, nothing that is poisoned
/// becomes ordinary, and the owner closes, or reports that it is closing.
pub proof fn law_close_keeps_the_physical_outcome(
    result: Result<PublicationWorkResult, RuntimeTaskError>,
    stage: DurableCommitStage,
    wait: PublicationWait,
)
    requires
        wait !is Undisturbed,
    ensures
        ({
            let undisturbed = settled_publication(result, stage, PublicationWait::Undisturbed);
            match settled_publication(result, stage, wait) {
                PublicationResultView::Published { entry, close_required } => close_required
                    && (undisturbed matches PublicationResultView::Published {
                    entry: published,
                    ..
                } && published == entry),
                PublicationResultView::Ordinary { error, close_required } => undisturbed is Ordinary
                    && (close_required || error is Closing),
                PublicationResultView::Poisoned => undisturbed is Poisoned,
            }
        }),
{
}

} // verus!
