//! First-wins barriers between a worker and its owner.
//!
//! A worker crosses a barrier before its first lasting effect; its owner cancels it to stop a worker
//! that has not crossed yet. Exactly one of the two wins. The owner of a barrier shares it under a
//! lock, so that each call here is one atomic step.

use crate::open_error::{DurableAgentCreateError, RuntimeTaskError};
use crate::reservation;
use crate::reservation::{
    map_reservation_failure, ReservationAttemptJobOutcome, ReservationFailure,
    ReservationPhysicalObservation,
};
use vstd::prelude::*;

verus! {

/// The state of a reservation attempt.
#[derive(Clone, Copy, Debug, PartialEq, Eq, Structural)]
pub enum ReservationAttemptStage {
    Pending,
    Crossed,
    Cancelled,
}

impl ReservationAttemptStage {
    /// The worker's side: wins exactly if nothing was decided yet.
    pub fn try_cross(stage: &mut ReservationAttemptStage) -> (won: bool)
        ensures
            won == (*old(stage) is Pending),
            *final(stage) == if won {
                ReservationAttemptStage::Crossed
            } else {
                *old(stage)
            },
    {
        match *stage {
            ReservationAttemptStage::Pending => {
                *stage = ReservationAttemptStage::Crossed;
                true
            },
            _ => false,
        }
    }

    /// The owner's side: wins exactly if nothing was decided yet.
    pub fn try_cancel(stage: &mut ReservationAttemptStage) -> (won: bool)
        ensures
            won == (*old(stage) is Pending),
            *final(stage) == if won {
                ReservationAttemptStage::Cancelled
            } else {
                *old(stage)
            },
    {
        match *stage {
            ReservationAttemptStage::Pending => {
                *stage = ReservationAttemptStage::Cancelled;
                true
            },
            _ => false,
        }
    }
}

/// The state of a publication.
#[derive(Clone, Copy, Debug, PartialEq, Eq, Structural)]
pub enum DurableCommitStage {
    Pending,
    Crossed,
    Cancelled,
}

/// The single linearization point of a publication: cancellation, or the creation of `COMMITTED`.
pub struct DurableCommitBarrier {
    stage: DurableCommitStage,
}

impl View for DurableCommitBarrier {
    type V = DurableCommitStage;

    closed spec fn view(&self) -> DurableCommitStage {
        self.stage
    }
}

impl DurableCommitBarrier {
    pub fn new() -> (barrier: Self)
        ensures
            barrier@ is Pending,
    {
        DurableCommitBarrier { stage: DurableCommitStage::Pending }
    }

    /// The worker's side: wins exactly if nothing was decided yet.
    pub fn try_cross(&mut self) -> (won: bool)
        ensures
            won == (old(self)@ is Pending),
            final(self)@ == if won {
                DurableCommitStage::Crossed
            } else {
                old(self)@
            },
    {
        match self.stage {
            DurableCommitStage::Pending => {
                self.stage = DurableCommitStage::Crossed;
                true
            },
            _ => false,
        }
    }

    /// The owner's side: wins exactly if nothing was decided yet.
    pub fn try_cancel(&mut self) -> (won: bool)
        ensures
            won == (old(self)@ is Pending),
            final(self)@ == if won {
                DurableCommitStage::Cancelled
            } else {
                old(self)@
            },
    {
        match self.stage {
            DurableCommitStage::Pending => {
                self.stage = DurableCommitStage::Cancelled;
                true
            },
            _ => false,
        }
    }

    pub fn is_cancelled(&self) -> (cancelled: bool)
        ensures
            cancelled == (self@ is Cancelled),
    {
        matches!(self.stage, DurableCommitStage::Cancelled)
    }

    pub fn current_stage(&self) -> (stage: DurableCommitStage)
        ensures
            stage == self@,
    {
        self.stage
    }
}

/// One call on a barrier.
pub enum BarrierCall {
    Cross,
    Cancel,
}

/// The stage after one call.
pub open spec fn stage_after(stage: DurableCommitStage, call: BarrierCall) -> DurableCommitStage {
    match (stage, call) {
        (DurableCommitStage::Pending, BarrierCall::Cross) => DurableCommitStage::Crossed,
        (DurableCommitStage::Pending, BarrierCall::Cancel) => DurableCommitStage::Cancelled,
        _ => stage,
    }
}

/// The stage of a new barrier after a sequence of calls.
pub open spec fn stage_after_calls(calls: Seq<BarrierCall>) -> DurableCommitStage
    decreases calls.len(),
{
    if calls.len() == 0 {
        DurableCommitStage::Pending
    } else {
        stage_after(stage_after_calls(calls.drop_last()), calls.last())
    }
}

/// Whatever the order and the number of calls, the first one wins and no later one changes anything.
pub proof fn law_first_call_wins(calls: Seq<BarrierCall>)
    requires
        calls.len() > 0,
    ensures
        stage_after_calls(calls) == match calls[0] {
            BarrierCall::Cross => DurableCommitStage::Crossed,
            BarrierCall::Cancel => DurableCommitStage::Cancelled,
        },
    decreases calls.len(),
{
    if calls.len() == 1 {
        assert(calls.drop_last() =~= seq![]);
        assert(stage_after_calls(calls.drop_last()) == DurableCommitStage::Pending);
    } else {
        assert(calls.drop_last()[0] == calls[0]);
        law_first_call_wins(calls.drop_last());
    }
}

/// What a finished reservation job amounts to.
pub open spec fn settled_reservation(
    result: Result<ReservationAttemptJobOutcome, RuntimeTaskError>,
    stage: ReservationAttemptStage,
    closing_won: bool,
) -> Result<ReservationPhysicalObservation, ReservationFailure> {
    match result {
        Ok(ReservationAttemptJobOutcome::Observed(observation)) => if closing_won {
            Err(ReservationFailure::IndeterminatePoisoned)
        } else {
            Ok(observation)
        },
        Ok(ReservationAttemptJobOutcome::Cancelled) => if closing_won {
            Err(ReservationFailure::Closing)
        } else {
            Err(ReservationFailure::IndeterminatePoisoned)
        },
        Err(error) => Err(reservation_job_failure(error, stage)),
    }
}

/// A job that broke off after it crossed its barrier has an unknown outcome; one that did not cross
/// had no effect.
pub open spec fn reservation_job_failure(
    error: RuntimeTaskError,
    stage: ReservationAttemptStage,
) -> ReservationFailure {
    if stage is Crossed {
        ReservationFailure::IndeterminatePoisoned
    } else if error is OwnerClosing {
        ReservationFailure::Closing
    } else {
        ReservationFailure::StorageUnavailable
    }
}

/// Classifies a reservation job that broke off.
pub fn classify_reservation_job_error(
    error: RuntimeTaskError,
    stage: ReservationAttemptStage,
) -> (failure: ReservationFailure)
    ensures
        failure == reservation_job_failure(error, stage),
{
    match stage {
        ReservationAttemptStage::Crossed => ReservationFailure::IndeterminatePoisoned,
        ReservationAttemptStage::Pending | ReservationAttemptStage::Cancelled =>
            if error == RuntimeTaskError::OwnerClosing {
                ReservationFailure::Closing
            } else {
                ReservationFailure::StorageUnavailable
            },
    }
}

/// Settles a reservation job. `closing_won` says whether the owner cancelled it before it crossed.
pub fn settle_reservation_attempt(
    result: Result<ReservationAttemptJobOutcome, RuntimeTaskError>,
    stage: ReservationAttemptStage,
    closing_won: bool,
) -> (settled: Result<ReservationPhysicalObservation, ReservationFailure>)
    ensures
        settled == settled_reservation(result, stage, closing_won),
{
    match result {
        Ok(ReservationAttemptJobOutcome::Observed(observation)) => if closing_won {
            Err(ReservationFailure::IndeterminatePoisoned)
        } else {
            Ok(observation)
        },
        Ok(ReservationAttemptJobOutcome::Cancelled) => if closing_won {
            Err(ReservationFailure::Closing)
        } else {
            Err(ReservationFailure::IndeterminatePoisoned)
        },
        Err(error) => Err(classify_reservation_job_error(error, stage)),
    }
}

/// Settles the reservation job of a create request.
pub fn settle_create_reservation_attempt(
    result: Result<ReservationAttemptJobOutcome, RuntimeTaskError>,
    stage: ReservationAttemptStage,
    closing_won: bool,
) -> (settled: Result<ReservationPhysicalObservation, DurableAgentCreateError>)
    ensures
        settled == match settled_reservation(result, stage, closing_won) {
            Ok(observation) => Ok(observation),
            Err(failure) => Err(reservation::create_failure(failure)),
        },
{
    match settle_reservation_attempt(result, stage, closing_won) {
        Ok(observation) => Ok(observation),
        Err(failure) => Err(map_reservation_failure(failure)),
    }
}

} // verus!
