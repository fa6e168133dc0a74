//! The rules of the store that need no disk.

use std::collections::{BTreeMap, BTreeSet, VecDeque};
use std::sync::Arc;

use minicore::actor::{
    abandoned_request_error, admit_create_request, continue_after_reservation, decide,
    first_agent_head, ActorEffect, ActorEvent, Admission, AdmissionWait,
};
use minicore::agent_chain::DurableAgentCatalogEntry;
use minicore::barrier::{
    classify_reservation_job_error, settle_create_reservation_attempt, settle_reservation_attempt,
    DurableCommitBarrier, DurableCommitStage, ReservationAttemptStage,
};
use minicore::bootstrap::{
    classify_directory_sync, format_marker_exists, validate_open_regular_file, ComparedFile,
    EntranceAction, EntranceEvent, LockAttempt, RootEntrance, SyncAttempt,
};
use minicore::catalog::DurableCatalog;
use minicore::cleanup_run::DirectorySync;
use minicore::entity_scan::EntityKind;
use minicore::error::{
    BoundedText, DiagnosticCategory, DiagnosticCode, DiagnosticSummary, BOUNDED_TEXT_BYTES,
};
use minicore::event::SessionEventKind;
use minicore::execution::{
    ConfigRevision, DescriptorAccess, ExecutionConfig, ExecutionConfigError, ModelDescriptor,
    ReasoningPreference, ToolSet, ToolSpec,
};
use minicore::generation::StorageGeneration;
use minicore::head::{
    DurableAgentHead, DurableAgentHeadError, DurableSessionHead, DurableSessionHeadError,
};
use minicore::ids::{
    parse_agent_id_name, parse_session_id_name, AgentId, AgentMetadataRevision, AgentRevision,
    ItemId, SessionDefinitionRevision, SessionId, SessionMetadataRevision, Timestamp,
    WorkspaceRevision,
};
use minicore::lifecycle::{
    is_legal_agent_status_transition, is_legal_session_lifecycle_transition,
    workspace_revision_transition_is_valid, AgentDefinition, AgentMetadata, AgentStatus,
    ForkAnchor, ForkSourceKind, SessionForkProvenance, SessionLifecycle, SessionMetadata,
    SessionWorkspace,
};
use minicore::location::{EntityKey, StoreLocation};
use minicore::open_error::{
    map_durable_document_codec_error, map_publication_codec_error,
    map_unpublished_conversation_recovery_error, DurableAgentCreateError, DurableOpenError,
    DurableStoreCodecError, RuntimeTaskError, UnpublishedConversationRecoveryError,
};
use minicore::physical::{
    cleanup_candidate_is_absent_after_remove_dir_error, read_durable_document,
    validate_zero_regular_file, CleanupNodeIdentityShape, DocumentObservation,
    DocumentReadProgress, LookupError, NodeKind, NodeMetadata, OpenFileObservation, StoreLimits,
    ZeroFileObservation,
};
use minicore::publication_check::{
    classify_publication_task_error, publication_error_for_certainty, settle_publication,
    PublicationCertainty, PublicationWait, PublicationWorkResult,
};
use minicore::recovery::RecoveredCatalog;
use minicore::reservation::{
    reconcile_reservation, ReservationAttemptJobOutcome, ReservationFailure, ReservationInventory,
    ReservationPhysicalObservation,
};
use minicore::scan_errors::PhysicalScanErrors;
use minicore::session_error::{
    SessionLogError, SessionLogErrorKind, SessionOpenError, SessionOpenErrorKind,
    SessionShutdownError,
};

const SESSION_ONE: &str = "ses_22222222222222222222222222222222";
const SESSION_TWO: &str = "ses_33333333333333333333333333333333";

fn time(milliseconds: u64) -> Timestamp {
    Timestamp { milliseconds }
}

fn private_file() -> NodeMetadata {
    NodeMetadata {
        kind: NodeKind::Regular,
        mode: 0o100600,
        length: 0,
        identity: CleanupNodeIdentityShape {
            device: 1,
            inode: 2,
        },
    }
}

fn private_directory() -> NodeMetadata {
    NodeMetadata {
        kind: NodeKind::Directory,
        mode: 0o040700,
        ..private_file()
    }
}

// Barriers and jobs.

#[test]
fn durable_commit_barrier_is_first_wins_in_both_orders() {
    let mut crossed = DurableCommitBarrier::new();
    assert!(crossed.try_cross());
    assert!(!crossed.try_cancel());
    assert!(!crossed.is_cancelled());
    assert_eq!(crossed.current_stage(), DurableCommitStage::Crossed);

    let mut cancelled = DurableCommitBarrier::new();
    assert!(cancelled.try_cancel());
    assert!(!cancelled.try_cross());
    assert!(cancelled.is_cancelled());
    assert!(!cancelled.try_cancel());
    assert_eq!(cancelled.current_stage(), DurableCommitStage::Cancelled);
}

#[test]
fn reservation_attempt_stage_is_first_wins_in_both_orders() {
    let mut crossed = ReservationAttemptStage::Pending;
    assert!(ReservationAttemptStage::try_cross(&mut crossed));
    assert!(!ReservationAttemptStage::try_cancel(&mut crossed));
    assert_eq!(crossed, ReservationAttemptStage::Crossed);
    let mut cancelled = ReservationAttemptStage::Pending;
    assert!(ReservationAttemptStage::try_cancel(&mut cancelled));
    assert!(!ReservationAttemptStage::try_cross(&mut cancelled));
    assert_eq!(cancelled, ReservationAttemptStage::Cancelled);
}

#[test]
fn publication_task_failure_before_commit_is_ordinary_but_after_commit_is_poisoned() {
    let pending = DurableCommitBarrier::new();
    assert!(matches!(
        classify_publication_task_error(RuntimeTaskError::OwnerClosing, pending.current_stage()),
        PublicationWorkResult::Ordinary {
            error: DurableAgentCreateError::Closing,
            close_required: false,
        }
    ));
    assert!(matches!(
        classify_publication_task_error(
            RuntimeTaskError::WorkerUnavailable,
            pending.current_stage()
        ),
        PublicationWorkResult::Ordinary {
            error: DurableAgentCreateError::StorageUnavailable,
            close_required: false,
        }
    ));
    assert!(matches!(
        classify_publication_task_error(
            RuntimeTaskError::OperationPanicked,
            pending.current_stage()
        ),
        PublicationWorkResult::Poisoned
    ));
    let mut crossed = DurableCommitBarrier::new();
    assert!(crossed.try_cross());
    assert!(matches!(
        classify_publication_task_error(RuntimeTaskError::OwnerClosing, crossed.current_stage()),
        PublicationWorkResult::Poisoned
    ));
}

#[test]
fn reservation_attempt_failure_classification_uses_the_attempt_barrier_state() {
    for stage in [
        ReservationAttemptStage::Pending,
        ReservationAttemptStage::Cancelled,
    ] {
        assert_eq!(
            classify_reservation_job_error(RuntimeTaskError::OwnerClosing, stage),
            ReservationFailure::Closing
        );
        assert_eq!(
            classify_reservation_job_error(RuntimeTaskError::WorkerUnavailable, stage),
            ReservationFailure::StorageUnavailable
        );
    }
    assert_eq!(
        classify_reservation_job_error(
            RuntimeTaskError::OwnerClosing,
            ReservationAttemptStage::Crossed
        ),
        ReservationFailure::IndeterminatePoisoned
    );
}

#[test]
fn a_settled_reservation_never_contradicts_its_barrier() {
    let observed = Ok(ReservationAttemptJobOutcome::Observed(
        ReservationPhysicalObservation::Created,
    ));
    let cancelled = Ok(ReservationAttemptJobOutcome::Cancelled);
    let crossed = ReservationAttemptStage::Crossed;
    assert_eq!(
        settle_reservation_attempt(observed, crossed, false),
        Ok(ReservationPhysicalObservation::Created)
    );
    assert_eq!(
        settle_reservation_attempt(observed, crossed, true),
        Err(ReservationFailure::IndeterminatePoisoned)
    );
    assert_eq!(
        settle_reservation_attempt(cancelled, ReservationAttemptStage::Cancelled, true),
        Err(ReservationFailure::Closing)
    );
    assert_eq!(
        settle_reservation_attempt(cancelled, ReservationAttemptStage::Cancelled, false),
        Err(ReservationFailure::IndeterminatePoisoned)
    );
    assert_eq!(
        settle_create_reservation_attempt(
            Err(RuntimeTaskError::OperationPanicked),
            crossed,
            false
        ),
        Err(DurableAgentCreateError::InternalDispatchUnavailable)
    );
    assert_eq!(
        settle_create_reservation_attempt(observed, crossed, false),
        Ok(ReservationPhysicalObservation::Created)
    );
}

#[test]
fn a_settled_publication_remembers_the_close_request() {
    let ordinary = || {
        Ok(PublicationWorkResult::Ordinary {
            error: DurableAgentCreateError::StorageUnavailable,
            close_required: false,
        })
    };
    let stage = DurableCommitStage::Cancelled;
    assert!(matches!(
        settle_publication(ordinary(), stage, PublicationWait::Undisturbed),
        PublicationWorkResult::Ordinary {
            error: DurableAgentCreateError::StorageUnavailable,
            close_required: false
        }
    ));
    assert!(matches!(
        settle_publication(ordinary(), stage, PublicationWait::CancellationWon),
        PublicationWorkResult::Ordinary {
            error: DurableAgentCreateError::Closing,
            close_required: false
        }
    ));
    assert!(matches!(
        settle_publication(ordinary(), stage, PublicationWait::CancellationLost),
        PublicationWorkResult::Ordinary {
            error: DurableAgentCreateError::StorageUnavailable,
            close_required: true
        }
    ));
    assert!(matches!(
        settle_publication(
            Err(RuntimeTaskError::WorkerUnavailable),
            DurableCommitStage::Crossed,
            PublicationWait::CancellationLost
        ),
        PublicationWorkResult::Poisoned
    ));
}

#[test]
fn certainties_are_reported_as_errors() {
    for (certainty, error) in [
        (
            PublicationCertainty::NotPublished,
            DurableAgentCreateError::StorageUnavailable,
        ),
        (
            PublicationCertainty::Published,
            DurableAgentCreateError::StorageUnavailable,
        ),
        (
            PublicationCertainty::CommittedCorruptPoisoned,
            DurableAgentCreateError::InternalDispatchUnavailable,
        ),
        (
            PublicationCertainty::IndeterminatePoisoned,
            DurableAgentCreateError::InternalDispatchUnavailable,
        ),
    ] {
        assert_eq!(publication_error_for_certainty(certainty), error);
    }
}

#[test]
fn every_reservation_observation_is_held_against_the_inventory() {
    use_every_observation(false, |observation| match observation {
        ReservationPhysicalObservation::Created => (Ok(Some(9)), true),
        ReservationPhysicalObservation::CreateErrorAbsent => {
            (Err(ReservationFailure::StorageUnavailable), false)
        }
        ReservationPhysicalObservation::CreateErrorPresent
        | ReservationPhysicalObservation::CreatedThenErrorPresent => {
            (Err(ReservationFailure::StorageUnavailable), true)
        }
        ReservationPhysicalObservation::Indeterminate => {
            (Err(ReservationFailure::IndeterminatePoisoned), false)
        }
        _ => (Err(ReservationFailure::DurableStateCorrupt), false),
    });
    use_every_observation(true, |observation| match observation {
        ReservationPhysicalObservation::AlreadyExistsCanonical => (Ok(None), false),
        ReservationPhysicalObservation::CreateErrorPresent => {
            (Err(ReservationFailure::StorageUnavailable), false)
        }
        ReservationPhysicalObservation::Indeterminate => {
            (Err(ReservationFailure::IndeterminatePoisoned), false)
        }
        _ => (Err(ReservationFailure::DurableStateCorrupt), false),
    });
}

type Reconciled = Result<Option<u128>, ReservationFailure>;

fn use_every_observation(
    was_present: bool,
    expected: impl Fn(ReservationPhysicalObservation) -> (Reconciled, bool),
) {
    for observation in [
        ReservationPhysicalObservation::Created,
        ReservationPhysicalObservation::AlreadyExistsCanonical,
        ReservationPhysicalObservation::CreateErrorAbsent,
        ReservationPhysicalObservation::CreateErrorPresent,
        ReservationPhysicalObservation::CreatedThenErrorPresent,
        ReservationPhysicalObservation::Corrupt,
        ReservationPhysicalObservation::Indeterminate,
    ] {
        let mut inventory = ReservationInventory {
            recovered: BTreeSet::from([1]),
            created: BTreeSet::new(),
        };
        let mut collisions = 3;
        let (result, inserted) = expected(observation);
        assert_eq!(
            reconcile_reservation(&mut inventory, 9, was_present, observation, &mut collisions),
            result
        );
        assert_eq!(inventory.contains(9), inserted);
        assert!(inventory.contains(1));
        assert_eq!(collisions, if result == Ok(None) { 4 } else { 3 });
    }
}

// The owner.

#[test]
fn admission_follows_what_the_caller_saw_first() {
    assert_eq!(
        admit_create_request(AdmissionWait::Place),
        Admission::Admitted
    );
    for (wait, error) in [
        (AdmissionWait::Closing, DurableAgentCreateError::Closing),
        (
            AdmissionWait::Refused { closing: true },
            DurableAgentCreateError::Closing,
        ),
        (
            AdmissionWait::Refused { closing: false },
            DurableAgentCreateError::InternalDispatchUnavailable,
        ),
    ] {
        assert_eq!(admit_create_request(wait), Admission::Rejected(error));
    }
    assert_eq!(
        abandoned_request_error(true),
        DurableAgentCreateError::Closing
    );
    assert_eq!(
        abandoned_request_error(false),
        DurableAgentCreateError::InternalDispatchUnavailable
    );
}

#[test]
fn the_owner_answers_the_current_request_before_it_closes() {
    let mut published = BTreeMap::new();
    assert!(
        decide(ActorEvent::ClosingObserved, &mut published)
            == [
                ActorEffect::CloseReceiver,
                ActorEffect::RejectQueued(DurableAgentCreateError::Closing),
                ActorEffect::Stop { clean: true },
            ]
    );
    assert!(
        decide(ActorEvent::QueueEnded, &mut published) == [ActorEffect::Stop { clean: false }]
    );
    assert!(
        decide(ActorEvent::Received { closing: false }, &mut published) == [ActorEffect::Process]
    );
    assert!(
        decide(ActorEvent::Received { closing: true }, &mut published)
            == [
                ActorEffect::CloseReceiver,
                ActorEffect::Settle(Err(DurableAgentCreateError::Closing)),
                ActorEffect::RejectQueued(DurableAgentCreateError::Closing),
                ActorEffect::Stop { clean: true },
            ]
    );
    assert!(
        decide(
            ActorEvent::Processed(PublicationWorkResult::Ordinary {
                error: DurableAgentCreateError::StorageUnavailable,
                close_required: false
            }),
            &mut published
        ) == [ActorEffect::Settle(Err(
            DurableAgentCreateError::StorageUnavailable
        ))]
    );
    assert!(
        decide(
            ActorEvent::Processed(PublicationWorkResult::Ordinary {
                error: DurableAgentCreateError::StorageUnavailable,
                close_required: true
            }),
            &mut published
        ) == [
            ActorEffect::Settle(Err(DurableAgentCreateError::StorageUnavailable)),
            ActorEffect::RequestClosing,
            ActorEffect::CloseReceiver,
            ActorEffect::RejectQueued(DurableAgentCreateError::Closing),
            ActorEffect::Stop { clean: true },
        ]
    );
    assert!(
        decide(
            ActorEvent::Processed(PublicationWorkResult::Poisoned),
            &mut published
        ) == [
            ActorEffect::Settle(Err(DurableAgentCreateError::InternalDispatchUnavailable)),
            ActorEffect::RequestClosing,
            ActorEffect::CloseReceiver,
            ActorEffect::RejectQueued(DurableAgentCreateError::InternalDispatchUnavailable),
            ActorEffect::Stop { clean: true },
        ]
    );
    assert!(published.is_empty());
}

#[test]
fn a_failed_reservation_is_poison_only_if_its_outcome_is_unknown() {
    let id = AgentId::new(4).unwrap();
    assert!(matches!(continue_after_reservation(Ok(id), false), Ok(kept) if kept == id));
    assert!(matches!(
        continue_after_reservation(Ok(id), true),
        Err(PublicationWorkResult::Ordinary {
            error: DurableAgentCreateError::Closing,
            close_required: false
        })
    ));
    assert!(matches!(
        continue_after_reservation(
            Err(DurableAgentCreateError::InternalDispatchUnavailable),
            false
        ),
        Err(PublicationWorkResult::Poisoned)
    ));
    assert!(matches!(
        continue_after_reservation(
            Err(DurableAgentCreateError::CollisionAttemptsExhausted),
            true
        ),
        Err(PublicationWorkResult::Ordinary {
            error: DurableAgentCreateError::CollisionAttemptsExhausted,
            close_required: false
        })
    ));
}

fn definition(id: AgentId, revision: u64) -> AgentDefinition {
    AgentDefinition {
        agent_id: id,
        revision: AgentRevision::new(revision).unwrap(),
        created_at: time(10),
        execution: b"execution".to_vec(),
    }
}

fn metadata(revision: u64, updated_at: u64) -> AgentMetadata {
    AgentMetadata {
        revision: AgentMetadataRevision::new(revision).unwrap(),
        name: "Planner".to_owned(),
        description: None,
        updated_at: time(updated_at),
    }
}

#[test]
fn a_new_agent_starts_with_a_valid_first_generation() {
    let id = AgentId::new(4).unwrap();
    let other = AgentId::new(5).unwrap();
    let head = first_agent_head(id, &definition(id, 1), metadata(1, 10)).unwrap();
    assert_eq!(head.agent_id(), id);
    assert_eq!(head.storage_generation(), StorageGeneration::first());
    assert_eq!(head.previous_storage_generation(), None);
    assert_eq!(head.status(), AgentStatus::Enabled);
    assert_eq!(head.created_at(), time(10));
    assert!(first_agent_head(id, &definition(other, 1), metadata(1, 10)).is_none());
    assert!(first_agent_head(id, &definition(id, 2), metadata(1, 10)).is_none());
    assert!(first_agent_head(id, &definition(id, 1), metadata(2, 10)).is_none());
    assert!(first_agent_head(id, &definition(id, 1), metadata(1, 11)).is_none());
}

// Names.

#[test]
fn directory_names_of_generations_sort_as_the_generations() {
    let values = [1, 2, 9, 10, 11, 99, 100, 999_999, 1_000_000];
    let names: Vec<String> = values
        .into_iter()
        .map(|value| StorageGeneration::new(value).unwrap().directory_name())
        .collect();
    for (i, first) in names.iter().enumerate() {
        for (j, second) in names.iter().enumerate() {
            assert_eq!(first < second, i < j);
        }
    }
}

#[test]
fn storage_generation_directory_names_are_exact_and_redacted() {
    for value in [1, 1_000_000] {
        let generation = StorageGeneration::new(value).unwrap();
        assert_eq!(
            StorageGeneration::parse_directory_name(generation.directory_name().as_bytes()),
            Ok(generation)
        );
        assert_eq!(
            StorageGeneration::parse_directory_name_str(&generation.directory_name()),
            Ok(generation)
        );
    }
    assert_eq!(
        StorageGeneration::new(42).unwrap().directory_name(),
        "00000000000000000042"
    );
    assert!(StorageGeneration::new(0).is_none());
    assert!(StorageGeneration::new(1_000_001).is_none());
    for invalid in [
        "00000000000000000000",
        "00000000000001000001",
        "1",
        "0000000000000000001",
        "+0000000000000000001",
        "000000000000000000001",
        "0000000000000000001\u{ff11}",
    ] {
        assert!(StorageGeneration::parse_directory_name_str(invalid).is_err());
    }
    let error = StorageGeneration::parse_directory_name_str("not-a-secret").unwrap_err();
    assert!(!format!("{error:?}").contains("not-a-secret"));
    assert!(!error.message().contains("not-a-secret"));
    assert_eq!(
        parse_agent_id_name(b"agt_\xff"),
        Err(DurableOpenError::DurableStateCorrupt)
    );
}

#[test]
fn generations_step_by_one_within_their_bounds() {
    let first = StorageGeneration::first();
    assert_eq!(first.previous(), None);
    assert_eq!(first.next(), StorageGeneration::new(2));
    let last = StorageGeneration::new(1_000_000).unwrap();
    assert_eq!(last.next(), None);
    assert_eq!(last.previous(), StorageGeneration::new(999_999));
}

#[test]
fn identity_names_are_canonical_only() {
    let id = AgentId::new(0xabc).unwrap();
    assert_eq!(id.canonical_name(), "agt_00000000000000000000000000000abc");
    assert_eq!(AgentId::parse(id.canonical_name().as_bytes()), Some(id));
    assert_eq!(parse_agent_id_name(id.canonical_name().as_bytes()), Ok(id));
    assert!(AgentId::new(0).is_none());
    for invalid in [
        "agt_00000000000000000000000000000000",
        "agt_00000000000000000000000000000ABC",
        "agt_0000000000000000000000000000abc",
        "agt_000000000000000000000000000000abc",
        "ses_00000000000000000000000000000abc",
        "",
    ] {
        assert_eq!(AgentId::parse(invalid.as_bytes()), None);
    }
    let session = SessionId::parse(SESSION_ONE.as_bytes()).unwrap();
    assert_eq!(session.canonical_name(), SESSION_ONE);
    assert_eq!(parse_session_id_name(SESSION_ONE.as_bytes()), Ok(session));
    let item = ItemId::parse(b"itm_bbbbbbbbbbbbbbbbbbbbbbbbbbbbbbbb").unwrap();
    assert_eq!(item.canonical_name(), "itm_bbbbbbbbbbbbbbbbbbbbbbbbbbbbbbbb");
    assert_eq!(
        AgentId::new(u128::MAX).unwrap().canonical_name(),
        "agt_ffffffffffffffffffffffffffffffff"
    );
}

#[test]
fn revisions_follow_each_other_by_one() {
    let one = AgentRevision::new(1).unwrap();
    let two = AgentRevision::new(2).unwrap();
    let last = AgentRevision::new(u64::MAX).unwrap();
    assert!(AgentRevision::new(0).is_none());
    assert!(one.is_followed_by(two));
    assert!(!two.is_followed_by(one) && !one.is_followed_by(one) && !last.is_followed_by(one));
}

#[test]
fn places_have_the_names_of_the_store_layout() {
    let key = EntityKey {
        kind: EntityKind::Agent,
        id: 1,
    };
    let name = "agt_00000000000000000000000000000001";
    let first = StorageGeneration::first();
    assert!(StoreLocation::Root.components().is_empty());
    assert_eq!(
        StoreLocation::Head(key, first).components(),
        [
            "agents",
            name,
            "generations",
            "00000000000000000001",
            "head.json"
        ]
    );
    assert_eq!(
        StoreLocation::Reservation(key).components(),
        ["reservations", "agents", name]
    );
    assert!(StoreLocation::Committed(key, first).parent() == StoreLocation::Generation(key, first));
    assert!(StoreLocation::Entity(key).parent() == StoreLocation::EntityCollection(key.kind));
}

// Heads and lifecycles.

fn session_metadata() -> SessionMetadata {
    SessionMetadata {
        revision: SessionMetadataRevision::new(1).unwrap(),
        name: Some("session secret".to_owned()),
        description: Some("description secret".to_owned()),
        updated_at: time(456),
    }
}

#[test]
fn private_session_head_enforces_only_single_document_invariants_and_redacts_debug() {
    let child = SessionId::parse(SESSION_ONE.as_bytes()).unwrap();
    let source = SessionId::parse(SESSION_TWO.as_bytes()).unwrap();
    let timestamp = time(456);
    let revision = SessionDefinitionRevision::new(1).unwrap();
    let first = StorageGeneration::new(1).unwrap();
    let head = DurableSessionHead::new(
        child,
        first,
        None,
        revision,
        first,
        session_metadata(),
        SessionLifecycle::Open,
        Some(SessionForkProvenance::new(
            source,
            ForkSourceKind::RecordedHistory,
            ForkAnchor::AfterUserMessage {
                item_id: ItemId::parse(b"itm_bbbbbbbbbbbbbbbbbbbbbbbbbbbbbbbb").unwrap(),
            },
        )),
        timestamp,
    )
    .ok()
    .unwrap();
    assert_eq!(head.session_id(), child);
    assert_eq!(head.storage_generation(), first);
    assert_eq!(head.previous_storage_generation(), None);
    assert_eq!(head.current_definition_revision(), revision);
    assert_eq!(head.current_definition_storage_generation(), first);
    assert!(head.metadata().is_same(&session_metadata()));
    assert_eq!(head.lifecycle(), SessionLifecycle::Open);
    assert_eq!(head.created_at(), timestamp);

    let attempt = |previous, fork| {
        DurableSessionHead::new(
            child,
            first,
            previous,
            revision,
            first,
            session_metadata(),
            SessionLifecycle::Open,
            fork,
            timestamp,
        )
    };
    assert!(matches!(
        attempt(Some(first), None),
        Err(DurableSessionHeadError::InvalidInvariant)
    ));
    assert!(attempt(
        None,
        Some(SessionForkProvenance::new(
            child,
            ForkSourceKind::LiveSnapshot,
            ForkAnchor::Genesis
        ))
    )
    .is_err());

    let debug = format!("{:?}", head.redacted());
    for secret in [
        SESSION_ONE,
        SESSION_TWO,
        "itm_bbbbbbbbbbbbbbbbbbbbbbbbbbbbbbbb",
        "session secret",
        "description secret",
    ] {
        assert!(!debug.contains(secret));
    }
}

#[test]
fn an_agent_head_points_to_the_generation_below_and_to_no_newer_definition() {
    let id = AgentId::new(3).unwrap();
    let generation = |ordinal| StorageGeneration::new(ordinal).unwrap();
    let attempt = |ordinal, previous: Option<u32>, definition_generation| {
        DurableAgentHead::new(
            id,
            generation(ordinal),
            previous.map(generation),
            AgentRevision::new(1).unwrap(),
            generation(definition_generation),
            metadata(1, 10),
            AgentStatus::Enabled,
            time(10),
        )
    };
    assert!(attempt(1, None, 1).is_ok());
    assert!(attempt(3, Some(2), 1).is_ok());
    assert!(attempt(3, Some(2), 3).is_ok());
    assert!(matches!(
        attempt(3, Some(1), 1),
        Err(DurableAgentHeadError::InvalidInvariant)
    ));
    assert!(attempt(3, None, 1).is_err());
    assert!(attempt(1, Some(1), 1).is_err());
    assert!(attempt(2, Some(1), 3).is_err());
    let shown = format!("{:?}", attempt(1, None, 1).ok().unwrap().redacted());
    assert!(!shown.contains("Planner") && !shown.contains("agt_"));
}

#[test]
fn deletion_ends_both_lifecycles() {
    let statuses = [
        AgentStatus::Enabled,
        AgentStatus::Disabled,
        AgentStatus::Deleted,
    ];
    for from in statuses {
        for to in statuses {
            assert_eq!(
                is_legal_agent_status_transition(from, to),
                from != to && from != AgentStatus::Deleted
            );
        }
    }
    let lifecycles = [
        SessionLifecycle::Open,
        SessionLifecycle::Archived,
        SessionLifecycle::Deleted,
    ];
    for from in lifecycles {
        for to in lifecycles {
            let legal = matches!(
                (from, to),
                (SessionLifecycle::Open, SessionLifecycle::Archived)
                    | (SessionLifecycle::Archived, SessionLifecycle::Open)
                    | (SessionLifecycle::Archived, SessionLifecycle::Deleted)
            );
            assert_eq!(is_legal_session_lifecycle_transition(from, to), legal);
        }
    }
}

#[test]
fn a_workspace_takes_a_new_revision_exactly_with_new_content() {
    let workspace = |revision, content: &str| SessionWorkspace {
        revision: WorkspaceRevision::new(revision).unwrap(),
        content: content.as_bytes().to_vec(),
    };
    for (from, to, valid) in [
        (workspace(1, "a"), workspace(1, "a"), true),
        (workspace(1, "a"), workspace(2, "a"), false),
        (workspace(1, "a"), workspace(1, "b"), false),
        (workspace(1, "a"), workspace(2, "b"), true),
        (workspace(1, "a"), workspace(3, "b"), false),
    ] {
        assert_eq!(workspace_revision_transition_is_valid(&from, &to), valid);
    }
}

// Errors.

#[test]
fn size_dominates_every_other_scan_error() {
    let all = [
        DurableOpenError::StorageUnavailable,
        DurableOpenError::DurableStateCorrupt,
        DurableOpenError::UnsupportedStoreFormat,
        DurableOpenError::StoreInUse,
    ];
    for error in all {
        let mut errors = PhysicalScanErrors::new();
        assert_eq!(errors.record(Ok(7)), Some(7));
        assert_eq!(errors.record::<u8>(Err(error)), None);
        errors.note(DurableOpenError::DurableStateTooLarge);
        assert_eq!(errors.finish(), Err(DurableOpenError::DurableStateTooLarge));
    }
    assert_eq!(PhysicalScanErrors::new().finish(), Ok(()));
    let mut errors = PhysicalScanErrors::new();
    errors.note_corrupt_if(false);
    errors.note_corrupt_if(true);
    assert_eq!(errors.finish(), Err(DurableOpenError::DurableStateCorrupt));
}

#[test]
fn outside_failures_map_to_the_closed_errors() {
    for error in [
        DurableStoreCodecError::DocumentTooLarge,
        DurableStoreCodecError::JsonStructure,
    ] {
        assert_eq!(
            map_durable_document_codec_error(error),
            DurableOpenError::DurableStateTooLarge
        );
        assert_eq!(
            map_publication_codec_error(error),
            DurableAgentCreateError::DurableStateTooLarge
        );
    }
    for error in [
        DurableStoreCodecError::InvalidDocument,
        DurableStoreCodecError::InvalidShape,
        DurableStoreCodecError::InvalidScalar,
        DurableStoreCodecError::InvalidSemantic,
        DurableStoreCodecError::Noncanonical,
    ] {
        assert_eq!(
            map_durable_document_codec_error(error),
            DurableOpenError::DurableStateCorrupt
        );
        assert_eq!(
            map_publication_codec_error(error),
            DurableAgentCreateError::StorageUnavailable
        );
    }
    assert_eq!(
        map_unpublished_conversation_recovery_error(
            UnpublishedConversationRecoveryError::Unavailable
        ),
        DurableOpenError::StorageUnavailable
    );
}

#[test]
fn create_failures_have_fixed_texts() {
    for (error, text) in [
        (DurableAgentCreateError::Closing, "durable state is closing"),
        (
            DurableAgentCreateError::DurableStateTooLarge,
            "durable state exceeds its selected size limit",
        ),
        (
            DurableAgentCreateError::IdentityUnavailable,
            "Agent identity is unavailable",
        ),
        (
            DurableAgentCreateError::CollisionAttemptsExhausted,
            "Agent identity allocation attempts are exhausted",
        ),
        (
            DurableAgentCreateError::StorageUnavailable,
            "durable storage is unavailable",
        ),
        (
            DurableAgentCreateError::InternalDispatchUnavailable,
            "durable state dispatch is unavailable",
        ),
    ] {
        assert_eq!(error.message(), text);
    }
}

#[test]
fn a_failed_directory_removal_counts_only_as_a_confirmed_absence() {
    assert!(cleanup_candidate_is_absent_after_remove_dir_error(Err(
        LookupError::NotFound
    )));
    assert!(!cleanup_candidate_is_absent_after_remove_dir_error(Err(
        LookupError::Unreadable
    )));
    assert!(!cleanup_candidate_is_absent_after_remove_dir_error(Ok(
        private_directory()
    )));
}

#[test]
fn a_document_read_asks_for_at_most_one_byte_past_the_limit() {
    let limits = StoreLimits {
        document_bytes: 10_000,
        conversation_bytes: 0,
    };
    let progress = DocumentReadProgress::new(limits);
    assert_eq!(progress.request_length(), 8_192);
    let progress = progress.accept(&[1; 8_192]);
    assert_eq!(progress.request_length(), 1_809);
    let progress = progress.accept(&[2; 1_809]);
    assert_eq!(progress.request_length(), 0);
    assert_eq!(progress.into_bytes().len(), 10_001);
    let short = DocumentReadProgress::new(limits).accept(b"abc").accept(b"");
    assert_eq!(short.request_length(), 0);
    assert_eq!(short.into_bytes(), b"abc");
}

// Entering a root.

#[test]
fn the_way_into_a_root_refuses_what_it_does_not_understand() {
    let unavailable = DurableOpenError::StorageUnavailable;
    let refused = |state: RootEntrance, event: EntranceEvent, error: DurableOpenError| {
        let next = state.handle(event);
        assert!(next == RootEntrance::Refused(error));
        assert!(next.handle(EntranceEvent::Performed(true)) == next);
        assert!(next.action() == EntranceAction::Finished);
    };
    refused(
        RootEntrance::LookingAtRoot,
        EntranceEvent::Seen(Ok(private_file())),
        unavailable,
    );
    refused(
        RootEntrance::LookingAtRoot,
        EntranceEvent::Performed(true),
        unavailable,
    );
    refused(
        RootEntrance::LookingForLock { marked: true },
        EntranceEvent::Seen(Err(LookupError::NotFound)),
        DurableOpenError::DurableStateCorrupt,
    );
    refused(
        RootEntrance::LookingForLock { marked: false },
        EntranceEvent::Seen(Ok(private_directory())),
        DurableOpenError::UnsupportedStoreFormat,
    );
    for attempt in [LockAttempt::Held, LockAttempt::WouldBlock] {
        refused(
            RootEntrance::Locking,
            EntranceEvent::LockAttempted(attempt),
            DurableOpenError::StoreInUse,
        );
    }
    refused(
        RootEntrance::Locking,
        EntranceEvent::LockAttempted(LockAttempt::Failed),
        unavailable,
    );
    assert!(
        RootEntrance::ClassifyingSync.handle(EntranceEvent::SyncAttempted(SyncAttempt::Unsupported))
            == RootEntrance::Entered(DirectorySync::Unsupported)
    );
    assert_eq!(
        classify_directory_sync(SyncAttempt::Failed),
        Err(unavailable)
    );
    assert_eq!(format_marker_exists(Ok(private_file())), Ok(true));
    assert_eq!(format_marker_exists(Err(LookupError::NotFound)), Ok(false));
    assert_eq!(
        format_marker_exists(Err(LookupError::Unreadable)),
        Err(unavailable)
    );
}

#[test]
fn an_open_lock_file_must_still_be_the_file_at_its_path() {
    let error = DurableOpenError::DurableStateCorrupt;
    let same = ComparedFile {
        handle: Ok(private_file()),
        path: Ok(private_file()),
    };
    assert_eq!(validate_open_regular_file(same, error), Ok(()));
    let replaced = ComparedFile {
        path: Ok(NodeMetadata {
            identity: CleanupNodeIdentityShape {
                device: 1,
                inode: 9,
            },
            ..private_file()
        }),
        ..same
    };
    assert_eq!(
        validate_open_regular_file(replaced, error),
        Err(DurableOpenError::StorageUnavailable)
    );
    let shared = ComparedFile {
        handle: Ok(NodeMetadata {
            mode: 0o100644,
            ..private_file()
        }),
        ..same
    };
    assert_eq!(validate_open_regular_file(shared, error), Err(error));
}

// Diagnostics.

fn diagnostic(message: &str) -> DiagnosticSummary {
    DiagnosticSummary::new(
        DiagnosticCode::ToolFailed,
        DiagnosticCategory::Tool,
        BoundedText::new(message).unwrap(),
        true,
    )
}

#[test]
fn diagnostics_show_the_length_of_their_message_only() {
    let summary = diagnostic("s\u{e9}cret");
    let shown = summary.redacted();
    assert_eq!(shown.code, DiagnosticCode::ToolFailed);
    assert_eq!(shown.category, DiagnosticCategory::Tool);
    assert_eq!(shown.message_bytes, 7);
    assert!(shown.retryable);
    assert!(!format!("{shown:?}").contains("cret"));
    assert_eq!(summary.clone().message.as_str(), "s\u{e9}cret");
}

#[test]
fn bounded_texts_are_bounded_in_bytes() {
    assert!(BoundedText::new(&"x".repeat(BOUNDED_TEXT_BYTES)).is_ok());
    assert!(BoundedText::new(&"x".repeat(BOUNDED_TEXT_BYTES + 1)).is_err());
    assert!(BoundedText::new(&"\u{e9}".repeat(BOUNDED_TEXT_BYTES / 2 + 1)).is_err());
    let fixed = DiagnosticSummary::bounded_static(
        DiagnosticCode::Internal,
        DiagnosticCategory::Internal,
        "fixed",
        false,
    );
    assert_eq!(fixed.message.byte_len(), 5);
}

#[test]
fn log_failures_keep_their_kind_and_diagnostic() {
    let error = SessionLogError::new(SessionLogErrorKind::Conflict, diagnostic("detail"));
    assert_eq!(error.kind(), SessionLogErrorKind::Conflict);
    assert_eq!(error.diagnostic().message.as_str(), "detail");
    assert_eq!(error.message(), "session log error: Conflict");
    assert_eq!(error.clone().kind(), SessionLogErrorKind::Conflict);
}

#[test]
fn open_failures_are_classified_with_their_details() {
    let first = SessionId::new(1).unwrap();
    let second = SessionId::new(2).unwrap();
    let mismatch = SessionOpenError::for_session_id_mismatch(first, second);
    assert_eq!(mismatch.kind(), SessionOpenErrorKind::SessionIdMismatch);
    assert_eq!(mismatch.session_id_mismatch(), Some((first, second)));
    assert_eq!(
        mismatch.diagnostic().code,
        DiagnosticCode::InvalidSessionManifest
    );
    assert_eq!(mismatch.message(), "session identity does not match");
    assert!(mismatch.log_error().is_none());

    for (kind, code, retryable) in [
        (SessionLogErrorKind::Conflict, DiagnosticCode::LogConflict, false),
        (SessionLogErrorKind::Corrupt, DiagnosticCode::LogCorrupt, false),
        (
            SessionLogErrorKind::UnknownOutcome,
            DiagnosticCode::LogUnknownOutcome,
            false,
        ),
        (
            SessionLogErrorKind::NotInitialized,
            DiagnosticCode::InvalidSessionManifest,
            false,
        ),
        (
            SessionLogErrorKind::AlreadyInitialized,
            DiagnosticCode::InvalidSessionManifest,
            false,
        ),
        (SessionLogErrorKind::Closed, DiagnosticCode::SessionClosed, false),
        (SessionLogErrorKind::Unavailable, DiagnosticCode::Internal, true),
        (SessionLogErrorKind::Internal, DiagnosticCode::Internal, false),
    ] {
        let error = SessionOpenError::log(SessionLogError::new(kind, diagnostic("log")));
        assert_eq!(error.kind(), SessionOpenErrorKind::Log);
        assert_eq!(error.diagnostic().code, code);
        assert_eq!(error.diagnostic().category, DiagnosticCategory::Storage);
        assert_eq!(error.diagnostic().retryable, retryable);
        assert_eq!(error.log_error().unwrap().kind(), kind);
        let closed = SessionShutdownError::log_close(kind);
        assert_eq!(closed.redacted().diagnostic.code, code);
        assert_eq!(closed.redacted().diagnostic.retryable, retryable);
    }

    for (error, kind, code, text) in [
        (
            SessionOpenError::invalid_configuration(),
            SessionOpenErrorKind::InvalidConfiguration,
            DiagnosticCode::InvalidConfiguration,
            "session configuration is invalid",
        ),
        (
            SessionOpenError::invalid_manifest(),
            SessionOpenErrorKind::InvalidManifest,
            DiagnosticCode::InvalidSessionManifest,
            "session manifest is invalid",
        ),
        (
            SessionOpenError::binding_mismatch(true),
            SessionOpenErrorKind::BindingMismatch,
            DiagnosticCode::ModelMismatch,
            "session bindings do not match",
        ),
        (
            SessionOpenError::binding_mismatch(false),
            SessionOpenErrorKind::BindingMismatch,
            DiagnosticCode::InvalidConfiguration,
            "session bindings do not match",
        ),
        (
            SessionOpenError::recovery_uncertain(None),
            SessionOpenErrorKind::RecoveryUncertain,
            DiagnosticCode::LogUnknownOutcome,
            "session recovery is uncertain",
        ),
        (
            SessionOpenError::actor_start_failed(),
            SessionOpenErrorKind::ActorStartFailed,
            DiagnosticCode::RuntimeTerminated,
            "session owner failed to start",
        ),
    ] {
        assert_eq!(error.kind(), kind);
        assert_eq!(error.diagnostic().code, code);
        assert_eq!(error.message(), text);
        assert!(error.session_id_mismatch().is_none() && error.log_error().is_none());
    }
}

#[test]
fn a_secondary_diagnostic_is_added_and_never_dropped() {
    let error = SessionOpenError::invalid_manifest();
    assert!(error.secondary_diagnostic().is_none());
    let error = error.with_secondary_diagnostic(Some(diagnostic("second secret")));
    let error = error.with_secondary_diagnostic(None);
    assert_eq!(
        error.secondary_diagnostic().unwrap().message.as_str(),
        "second secret"
    );
    let uncertain = SessionOpenError::recovery_uncertain(Some(SessionLogError::new(
        SessionLogErrorKind::Closed,
        diagnostic("log secret"),
    )));
    assert!(uncertain.redacted().has_log_error);
    let shown = format!("{:?} {:?}", error.redacted(), uncertain.redacted());
    assert!(!shown.contains("secret"));
    assert_eq!(error.clone().kind(), SessionOpenErrorKind::InvalidManifest);
}

#[test]
fn shutdown_failures_have_fixed_texts_and_kinds() {
    for (error, kind, text, code) in [
        (
            SessionShutdownError::timeout(),
            "Timeout",
            "session shutdown timed out",
            DiagnosticCode::ShutdownTimeout,
        ),
        (
            SessionShutdownError::durability(),
            "Durability",
            "session shutdown durability failed",
            DiagnosticCode::LogUnknownOutcome,
        ),
        (
            SessionShutdownError::log_close(SessionLogErrorKind::Corrupt),
            "LogClose",
            "session log close failed during shutdown",
            DiagnosticCode::LogCorrupt,
        ),
        (
            SessionShutdownError::actor_terminated(),
            "ActorTerminated",
            "session owner task terminated unexpectedly",
            DiagnosticCode::RuntimeTerminated,
        ),
    ] {
        assert_eq!(error.redacted().kind, kind);
        assert_eq!(error.message(), text);
        assert_eq!(error.redacted().diagnostic.code, code);
        assert_eq!(error.clone().redacted().kind, kind);
    }
}

#[test]
fn session_event_kinds_are_distinct() {
    assert_ne!(SessionEventKind::Snapshot, SessionEventKind::Closed);
    assert_ne!(SessionEventKind::TurnStarted, SessionEventKind::TurnFinished);
}

// Execution configurations.

fn descriptor(valid: bool, supports_tools: bool) -> DescriptorAccess {
    DescriptorAccess::Returned(ModelDescriptor {
        valid,
        reasoning: vec![
            ReasoningPreference { number: 1 },
            ReasoningPreference { number: 2 },
        ],
        supports_tools,
    })
}

fn tools(valid: &[bool]) -> ToolSet {
    ToolSet {
        specs: valid
            .iter()
            .map(|valid| ToolSpec {
                name: "tool".to_owned(),
                valid: *valid,
            })
            .collect(),
    }
}

fn configure(
    access: DescriptorAccess,
    reasoning: u8,
    tools: ToolSet,
) -> Result<ExecutionConfig<&'static str, u8, u16>, ExecutionConfigError> {
    ExecutionConfig::new(
        "model",
        access,
        ReasoningPreference { number: reasoning },
        tools,
        Some(5),
        6,
    )
}

#[test]
fn a_configuration_asks_only_for_what_its_model_offers() {
    let config = configure(descriptor(true, true), 2, tools(&[true, true]))
        .ok()
        .unwrap();
    assert_eq!(*config.model(), "model");
    assert!(config.descriptor().supports_tools);
    assert_eq!(config.reasoning(), ReasoningPreference { number: 2 });
    assert_eq!(config.tools().specs.len(), 2);
    assert_eq!(config.policy(), Some(&5));
    assert_eq!(*config.prompt(), 6);
    assert!(configure(descriptor(true, false), 1, tools(&[])).is_ok());

    for (access, reasoning, specs, error) in [
        (
            DescriptorAccess::Panicked,
            1,
            tools(&[]),
            ExecutionConfigError::ModelDescriptorPanicked,
        ),
        (
            descriptor(false, false),
            9,
            tools(&[false]),
            ExecutionConfigError::InvalidDescriptor,
        ),
        (
            descriptor(true, false),
            9,
            tools(&[false]),
            ExecutionConfigError::UnsupportedReasoning,
        ),
        (
            descriptor(true, false),
            1,
            tools(&[false]),
            ExecutionConfigError::ToolsUnsupported,
        ),
        (
            descriptor(true, true),
            1,
            tools(&[true, false]),
            ExecutionConfigError::InvalidTools,
        ),
    ] {
        assert_eq!(configure(access, reasoning, specs).err(), Some(error));
    }
    assert_eq!(
        ExecutionConfigError::UnsupportedReasoning.message(),
        "model does not support the requested reasoning preference"
    );
}

#[test]
fn a_copied_configuration_has_the_same_parts() {
    let config = configure(descriptor(true, true), 2, tools(&[true, true]))
        .ok()
        .unwrap();
    let copy = config.clone();
    assert_eq!(copy.model(), config.model());
    assert_eq!(copy.descriptor().valid, config.descriptor().valid);
    assert_eq!(copy.descriptor().reasoning, config.descriptor().reasoning);
    assert_eq!(
        copy.descriptor().supports_tools,
        config.descriptor().supports_tools
    );
    assert_eq!(copy.reasoning(), config.reasoning());
    assert_eq!(copy.tools().specs.len(), 2);
    for spec in &copy.tools().specs {
        assert!(spec.valid);
        assert_eq!(spec.name, "tool");
    }
    assert_eq!(copy.policy(), config.policy());
    assert_eq!(copy.prompt(), config.prompt());
}

#[test]
fn configuration_revisions_start_at_zero() {
    assert_eq!(ConfigRevision::initial().as_u64(), 0);
    assert_eq!(ConfigRevision::new(7).as_u64(), 7);
    assert!(ConfigRevision::initial() < ConfigRevision::new(1));
}

#[test]
fn configuration_revisions_order_as_their_numbers() {
    let numbers = [0, 1, 9, 10, u64::MAX];
    for first in numbers {
        for second in numbers {
            let (one, other) = (ConfigRevision::new(first), ConfigRevision::new(second));
            assert_eq!(one.partial_cmp(&other), first.partial_cmp(&second));
            assert_eq!(one.cmp(&other), first.cmp(&second));
            assert_eq!(one == other, first == second);
        }
    }
}

// Places, markers and answers.

#[test]
fn two_places_never_share_a_path() {
    let mut places = vec![
        StoreLocation::Root,
        StoreLocation::LockFile,
        StoreLocation::FormatMarker,
        StoreLocation::Reservations,
    ];
    for kind in [EntityKind::Agent, EntityKind::Session] {
        places.push(StoreLocation::ReservationCollection(kind));
        places.push(StoreLocation::EntityCollection(kind));
        for id in [1, 0x1111_1111_1111_1111_1111_1111_1111_1111] {
            let key = EntityKey { kind, id };
            places.push(StoreLocation::Reservation(key));
            places.push(StoreLocation::Entity(key));
            places.push(StoreLocation::Published(key));
            places.push(StoreLocation::Generations(key));
            places.push(StoreLocation::Conversation(key));
            for ordinal in [1, 2, 1_000_000] {
                let generation = StorageGeneration::new(ordinal).unwrap();
                places.push(StoreLocation::Generation(key, generation));
                places.push(StoreLocation::Head(key, generation));
                places.push(StoreLocation::Definition(key, generation));
                places.push(StoreLocation::Committed(key, generation));
            }
        }
    }
    let paths: BTreeSet<Vec<String>> = places.iter().map(|place| place.components()).collect();
    assert_eq!(paths.len(), places.len());
}

#[test]
fn an_empty_document_reads_like_an_empty_marker() {
    let metadata = private_file();
    for opened in [true, false] {
        let file = OpenFileObservation {
            initial_path: Ok(metadata),
            opened,
            handle: Ok(metadata),
            path: Ok(metadata),
            final_handle: Ok(metadata),
            final_path: Ok(metadata),
        };
        let marker = ZeroFileObservation {
            file,
            read: Some(0),
        };
        let document = DocumentObservation {
            file,
            content: Some(Vec::new()),
        };
        assert_eq!(validate_zero_regular_file(&marker).is_ok(), opened);
        assert_eq!(
            read_durable_document(document, StoreLimits::production()).is_ok(),
            opened
        );
    }
}

fn catalog_entry(id: AgentId, status: AgentStatus, revision: u64) -> DurableAgentCatalogEntry {
    let first = StorageGeneration::first();
    let head = DurableAgentHead::new(
        id,
        first,
        None,
        AgentRevision::new(revision).unwrap(),
        first,
        metadata(1, 10),
        status,
        time(10),
    );
    DurableAgentCatalogEntry {
        current_head: Arc::new(head.ok().unwrap()),
        current_definition: Arc::new(definition(id, revision)),
        definition_index: BTreeMap::from([(revision, first)]),
    }
}

#[test]
fn what_was_published_since_is_seen_before_what_was_recovered() {
    let id = AgentId::new(4).unwrap();
    let other = AgentId::new(5).unwrap();
    let revision = |value| AgentRevision::new(value).unwrap();
    let mut catalog = DurableCatalog::open(RecoveredCatalog {
        agents: BTreeMap::from([
            (4, catalog_entry(id, AgentStatus::Disabled, 1)),
            (5, catalog_entry(other, AgentStatus::Disabled, 1)),
        ]),
        sessions: BTreeMap::new(),
    });
    assert_eq!(
        catalog.agent_head(id).unwrap().status(),
        AgentStatus::Disabled
    );
    let effects = decide(
        ActorEvent::Processed(PublicationWorkResult::Published {
            entry: catalog_entry(id, AgentStatus::Enabled, 2),
            close_required: false,
        }),
        &mut catalog.published_agents,
    );
    assert!(effects == [ActorEffect::Settle(Ok(4))]);
    assert_eq!(
        catalog.agent_head(id).unwrap().status(),
        AgentStatus::Enabled
    );
    assert_eq!(
        catalog.agent_current_definition(id).unwrap().revision.get(),
        2
    );
    assert!(catalog.contains_agent_definition(id, revision(1)));
    assert!(catalog.contains_agent_definition(id, revision(2)));
    assert!(!catalog.contains_agent_definition(id, revision(3)));
    assert_eq!(
        catalog.agent_head(other).unwrap().status(),
        AgentStatus::Disabled
    );
}

#[test]
fn requests_are_answered_once_and_in_the_order_of_their_admission() {
    let unavailable = DurableAgentCreateError::StorageUnavailable;
    let dispatch = DurableAgentCreateError::InternalDispatchUnavailable;
    let mut results = VecDeque::from([
        PublicationWorkResult::Ordinary {
            error: unavailable,
            close_required: false,
        },
        PublicationWorkResult::Poisoned,
    ]);
    let mut queue = VecDeque::from([1, 2, 3, 4]);
    let mut published = BTreeMap::new();
    let mut answers = Vec::new();
    let mut stopped = None;
    while stopped.is_none() {
        let mut current = queue.pop_front();
        assert!(
            decide(ActorEvent::Received { closing: false }, &mut published)
                == [ActorEffect::Process]
        );
        let result = results.pop_front().unwrap();
        for effect in decide(ActorEvent::Processed(result), &mut published) {
            match effect {
                ActorEffect::Settle(Err(error)) => answers.push((current.take().unwrap(), error)),
                ActorEffect::RejectQueued(error) => {
                    answers.extend(queue.drain(..).map(|request| (request, error)));
                }
                ActorEffect::Stop { clean } => stopped = Some(clean),
                _ => {}
            }
        }
    }
    assert_eq!(stopped, Some(true));
    assert_eq!(
        answers,
        [(1, unavailable), (2, dispatch), (3, dispatch), (4, dispatch)]
    );
}
