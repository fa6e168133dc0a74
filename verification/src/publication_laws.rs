//! What holds of every publication, whatever the filesystem answers and whenever it is cancelled.

use crate::barrier;
use crate::barrier::{BarrierCall, DurableCommitStage};
use crate::cleanup_run;
use crate::cleanup_run::CleanupRunView;
use crate::generation::StorageGeneration;
use crate::head::AgentHeadView;
use crate::lifecycle::AgentDefinitionView;
use crate::location::StoreLocation;
use crate::open_error::{DurableAgentCreateError, DurableStoreCodecError};
use crate::publication;
use crate::publication::{
    PublicationAction, PublicationEvent, PublicationMoment, PublicationSegment, PublicationStateView,
    PublicationStep, PublicationView,
};
use crate::publication_check::PublicationResultView;
use vstd::prelude::*;

verus! {

/// One thing that happens to a publication: an answer of the filesystem, or a cancellation by the
/// owner.
pub enum PublicationInput {
    Event(PublicationEvent),
    Cancel,
}

/// One input taken in.
pub open spec fn after_input(moment: PublicationMoment, input: PublicationInput) -> PublicationMoment {
    match input {
        PublicationInput::Event(event) => moment.after(event),
        PublicationInput::Cancel => PublicationMoment {
            stage: barrier::stage_after(moment.stage, BarrierCall::Cancel),
            ..moment
        },
    }
}

/// A history of inputs taken in.
pub open spec fn after_inputs(start: PublicationMoment, inputs: Seq<PublicationInput>) -> PublicationMoment
    decreases inputs.len(),
{
    if inputs.len() == 0 {
        start
    } else {
        after_input(after_inputs(start, inputs.drop_last()), inputs.last())
    }
}

/// The steps that were performed in a history.
pub open spec fn performed(start: PublicationMoment, inputs: Seq<PublicationInput>) -> Seq<
    PublicationStep,
>
    decreases inputs.len(),
{
    if inputs.len() == 0 {
        seq![]
    } else {
        let before = performed(start, inputs.drop_last());
        match (
            after_inputs(start, inputs.drop_last()).publication.action(),
            inputs.last(),
        ) {
            (PublicationAction::Perform(step), PublicationInput::Event(_)) => before.push(step),
            _ => before,
        }
    }
}

/// The place that an input confirms: one that was read back with exactly its bytes.
pub open spec fn confirms(moment: PublicationMoment, input: PublicationInput) -> Option<StoreLocation> {
    match (moment.publication.action(), input) {
        (
            PublicationAction::Perform(PublicationStep::ReadBack(location)),
            PublicationInput::Event(PublicationEvent::ReadBack(observation)),
        ) => if observation.certainty(
            moment.publication.content(location),
            moment.publication.limits,
        ) is Published {
            Some(location)
        } else {
            None
        },
        _ => None,
    }
}

/// Whether a place was confirmed in a history.
pub open spec fn confirmed(
    start: PublicationMoment,
    inputs: Seq<PublicationInput>,
    location: StoreLocation,
) -> bool
    decreases inputs.len(),
{
    inputs.len() > 0 && (confirmed(start, inputs.drop_last(), location) || confirms(
        after_inputs(start, inputs.drop_last()),
        inputs.last(),
    ) == Some(location))
}

/// Whether a place was confirmed in a history at some time after another one had been.
pub open spec fn confirmed_after(
    start: PublicationMoment,
    inputs: Seq<PublicationInput>,
    earlier: StoreLocation,
    location: StoreLocation,
) -> bool
    decreases inputs.len(),
{
    inputs.len() > 0 && (confirmed_after(start, inputs.drop_last(), earlier, location) || (confirmed(
        start,
        inputs.drop_last(),
        earlier,
    ) && confirms(after_inputs(start, inputs.drop_last()), inputs.last()) == Some(location)))
}

/// A publication that has done nothing yet.
pub open spec fn is_start(moment: PublicationMoment) -> bool {
    &&& moment.stage !is Crossed
    &&& match moment.publication.state {
        PublicationStateView::Stepping { segment, position } => segment is Precommit && position
            == 0,
        PublicationStateView::Staging { allow_committed, .. } => !allow_committed,
        PublicationStateView::Finished(result) => !(result is Published),
        _ => false,
    }
}

/// Where a publication can stand at each stage of its barrier.
pub open spec fn stage_fits(moment: PublicationMoment) -> bool {
    match moment.publication.state {
        PublicationStateView::Stepping { segment, position } => {
            &&& position < moment.publication.steps(segment).len()
            &&& (segment is Precommit <==> moment.stage !is Crossed)
        },
        PublicationStateView::Staging { allow_committed, .. } => allow_committed <==> moment.stage
            is Crossed,
        PublicationStateView::Finished(result) => result is Published ==> moment.stage is Crossed,
        PublicationStateView::Removing { run, .. } => run.action() !is Finished,
        PublicationStateView::Planned { .. } => true,
    }
}

/// Every publication that is prepared before its barrier is crossed starts like this.
pub proof fn law_preparation_touches_nothing(
    publication: PublicationView,
    definition: AgentDefinitionView,
    head: AgentHeadView,
    head_bytes: Result<Vec<u8>, DurableStoreCodecError>,
    definition_bytes: Result<Vec<u8>, DurableStoreCodecError>,
    stage: DurableCommitStage,
)
    requires
        stage !is Crossed,
        publication.state == publication::begun(
            definition,
            head,
            head_bytes,
            definition_bytes,
            stage,
        ),
    ensures
        is_start(PublicationMoment { publication, stage }),
{
}

/// Whether a step creates a marker.
pub open spec fn creates_marker(step: PublicationStep) -> bool {
    step matches PublicationStep::CreateFile(location) && (location is Committed || location
        is Published)
}

proof fn lemma_precommit_creates_no_marker(publication: PublicationView, i: int)
    requires
        0 <= i < publication.steps(PublicationSegment::Precommit).len(),
    ensures
        !creates_marker(publication.steps(PublicationSegment::Precommit)[i]),
        !(publication.steps(PublicationSegment::Precommit)[i] is Recover),
{
    reveal(publication::segment_steps);
}

proof fn lemma_stage_fits(moment: PublicationMoment, input: PublicationInput)
    requires
        stage_fits(moment),
    ensures
        stage_fits(after_input(moment, input)),
        moment.stage is Crossed ==> after_input(moment, input).stage is Crossed,
        moment.stage is Cancelled ==> after_input(moment, input).stage is Cancelled,
{
    let next = after_input(moment, input);
    match moment.publication.state {
        PublicationStateView::Stepping { segment, position } => {
            if segment is Precommit {
                lemma_precommit_creates_no_marker(moment.publication, position as int);
            }
            match next.publication.state {
                PublicationStateView::Stepping { segment, .. } => {
                    publication::lemma_segments_are_not_empty(
                        segment,
                        next.publication.agent_id,
                        next.publication.sync,
                    );
                },
                _ => {},
            }
        },
        PublicationStateView::Planned { plan, .. } => {
            let steps = cleanup_run::entity_steps(plan, moment.publication.sync);
            assert(steps.len() > 0);
        },
        _ => {},
    }
}

/// Every publication keeps to the stages of its barrier.
pub proof fn lemma_stages(start: PublicationMoment, inputs: Seq<PublicationInput>)
    requires
        is_start(start),
    ensures
        stage_fits(after_inputs(start, inputs)),
        after_inputs(start, inputs).publication.agent_id == start.publication.agent_id,
        after_inputs(start, inputs).publication.sync == start.publication.sync,
        after_inputs(start, inputs).publication.head == start.publication.head,
        after_inputs(start, inputs).publication.definition == start.publication.definition,
        after_inputs(start, inputs).publication.limits == start.publication.limits,
    decreases inputs.len(),
{
    if inputs.len() == 0 {
        publication::lemma_segments_are_not_empty(
            PublicationSegment::Precommit,
            start.publication.agent_id,
            start.publication.sync,
        );
    } else {
        lemma_stages(start, inputs.drop_last());
        lemma_stage_fits(after_inputs(start, inputs.drop_last()), inputs.last());
    }
}

/// A marker is created only behind the barrier. So a publication that was cancelled in time has
/// created none and is never reported as published.
pub proof fn law_markers_only_behind_the_barrier(
    start: PublicationMoment,
    inputs: Seq<PublicationInput>,
)
    requires
        is_start(start),
    ensures
        ({
            let end = after_inputs(start, inputs);
            &&& end.stage !is Crossed ==> forall|i: int|
                0 <= i < performed(start, inputs).len() ==> !creates_marker(
                    #[trigger] performed(start, inputs)[i],
                )
            &&& (end.publication.action() matches PublicationAction::Perform(step)
                && creates_marker(step)) ==> end.stage is Crossed
            &&& (end.publication.state matches PublicationStateView::Finished(result) && result
                is Published) ==> end.stage is Crossed
        }),
    decreases inputs.len(),
{
    lemma_stages(start, inputs);
    let end = after_inputs(start, inputs);
    match end.publication.state {
        PublicationStateView::Stepping { segment, position } => {
            if segment is Precommit {
                lemma_precommit_creates_no_marker(end.publication, position as int);
            }
        },
        _ => {},
    }
    if inputs.len() > 0 {
        let front = inputs.drop_last();
        law_markers_only_behind_the_barrier(start, front);
        lemma_stages(start, front);
        lemma_stage_fits(after_inputs(start, front), inputs.last());
        let before = after_inputs(start, front);
        if end.stage !is Crossed {
            assert forall|i: int| 0 <= i < performed(start, inputs).len() implies !creates_marker(
                #[trigger] performed(start, inputs)[i],
            ) by {
                if i < performed(start, front).len() {
                    assert(performed(start, inputs)[i] == performed(start, front)[i]);
                }
            }
        }
    }
}

/// Whether a publication is past the confirmation of `COMMITTED`.
pub open spec fn is_past_commit(segment: PublicationSegment) -> bool {
    !(segment is Precommit || segment is Commit || segment is CommittedCheck)
}

/// The marker was confirmed, and after it the two documents of the committed generation.
pub open spec fn commit_is_confirmed(start: PublicationMoment, inputs: Seq<PublicationInput>) -> bool {
    let key = start.publication.key();
    let first = StorageGeneration::of(1);
    let marker = StoreLocation::Committed(key, first);
    &&& confirmed(start, inputs, marker)
    &&& confirmed_after(start, inputs, marker, StoreLocation::Head(key, first))
    &&& confirmed_after(start, inputs, marker, StoreLocation::Definition(key, first))
}

/// The segments that end with the readback of the marker and of its documents.
spec fn confirms_commit(segment: PublicationSegment) -> bool {
    segment is Commit || segment is CommittedCheck
}

/// What is confirmed at each place of a publication: while the commit is read back, the marker and
/// then one document after the other.
spec fn confirmation_fits(start: PublicationMoment, inputs: Seq<PublicationInput>) -> bool {
    let end = after_inputs(start, inputs).publication;
    let key = start.publication.key();
    let first = StorageGeneration::of(1);
    let marker = StoreLocation::Committed(key, first);
    match end.state {
        PublicationStateView::Stepping { segment, position } => {
            let left = end.steps(segment).len() - position;
            &&& is_past_commit(segment) ==> commit_is_confirmed(start, inputs)
            &&& confirms_commit(segment) && left < 3 ==> confirmed(start, inputs, marker)
            &&& confirms_commit(segment) && left < 2 ==> confirmed_after(
                start,
                inputs,
                marker,
                StoreLocation::Head(key, first),
            )
        },
        PublicationStateView::Finished(result) => result is Published ==> commit_is_confirmed(
            start,
            inputs,
        ),
        _ => true,
    }
}

proof fn lemma_readback_positions(publication: PublicationView)
    ensures
        ({
            let key = publication.key();
            let first = StorageGeneration::of(1);
            let commit = publication.steps(PublicationSegment::Commit);
            let check = publication.steps(PublicationSegment::CommittedCheck);
            &&& forall|close_required: bool, error: DurableAgentCreateError|
                #[trigger] publication.steps(
                    PublicationSegment::PublishedCheck { close_required, error },
                ) == seq![PublicationStep::ReadBack(StoreLocation::Published(key))]
            &&& commit.len() >= 3
            &&& commit[commit.len() - 3] == PublicationStep::ReadBack(
                StoreLocation::Committed(key, first),
            )
            &&& commit[commit.len() - 2] == PublicationStep::ReadBack(
                StoreLocation::Head(key, first),
            )
            &&& commit[commit.len() - 1] == PublicationStep::ReadBack(
                StoreLocation::Definition(key, first),
            )
            &&& check.len() == 3
            &&& check[0] == PublicationStep::ReadBack(StoreLocation::Committed(key, first))
            &&& check[1] == PublicationStep::ReadBack(StoreLocation::Head(key, first))
            &&& check[2] == PublicationStep::ReadBack(StoreLocation::Definition(key, first))
        }),
{
    reveal(publication::segment_steps);
}

/// How a publication moves on around the readback of the commit.
proof fn lemma_step_around_the_commit(moment: PublicationMoment, event: PublicationEvent)
    requires
        stage_fits(moment),
    ensures
        ({
            let publication = moment.publication;
            let next = moment.after(event).publication.state;
            match publication.state {
                PublicationStateView::Stepping { segment, position } => {
                    let steps = publication.steps(segment);
                    let accepted = publication.checked(steps[position as int], event) is Ok;
                    match next {
                        PublicationStateView::Stepping { segment: s, position: p } => {
                            &&& is_past_commit(s) && !is_past_commit(segment) ==> confirms_commit(
                                segment,
                            ) && accepted && position + 1 == steps.len()
                            &&& confirms_commit(s) ==> p == 0 || (s == segment && p == position + 1
                                && accepted)
                        },
                        PublicationStateView::Finished(result) => result is Published
                            ==> is_past_commit(segment),
                        _ => true,
                    }
                },
                PublicationStateView::Finished(_) => next == publication.state,
                _ => !(next is Stepping) && !(next matches PublicationStateView::Finished(result)
                    && result is Published),
            }
        }),
{
    match moment.publication.state {
        PublicationStateView::Stepping { segment, position } => {
            if segment is Precommit {
                lemma_precommit_creates_no_marker(moment.publication, position as int);
            }
            if segment is Commit {
                lemma_commit_does_not_recover(moment.publication, position as int);
            }
            lemma_readback_positions(moment.publication);
        },
        _ => {},
    }
}

/// What one more input keeps confirmed.
proof fn lemma_confirmation_stays(
    start: PublicationMoment,
    inputs: Seq<PublicationInput>,
    location: StoreLocation,
)
    requires
        inputs.len() > 0,
    ensures
        confirmed(start, inputs.drop_last(), location) ==> confirmed(start, inputs, location),
        ({
            let marker = StoreLocation::Committed(
                start.publication.key(),
                StorageGeneration::of(1),
            );
            confirmed_after(start, inputs.drop_last(), marker, location) ==> confirmed_after(
                start,
                inputs,
                marker,
                location,
            )
        }),
{
}

proof fn lemma_confirmation(start: PublicationMoment, inputs: Seq<PublicationInput>)
    requires
        is_start(start),
    ensures
        confirmation_fits(start, inputs),
    decreases inputs.len(),
{
    if inputs.len() == 0 {
        lemma_readback_positions(start.publication);
    } else {
        let front = inputs.drop_last();
        let before = after_inputs(start, front);
        let key = start.publication.key();
        let first = StorageGeneration::of(1);
        let marker = StoreLocation::Committed(key, first);
        lemma_confirmation(start, front);
        lemma_stages(start, front);
        lemma_readback_positions(before.publication);
        lemma_confirmation_stays(start, inputs, marker);
        lemma_confirmation_stays(start, inputs, StoreLocation::Head(key, first));
        lemma_confirmation_stays(start, inputs, StoreLocation::Definition(key, first));
        match (before.publication.state, inputs.last()) {
            (
                PublicationStateView::Stepping { segment, position },
                PublicationInput::Event(event),
            ) => {
                lemma_step_around_the_commit(before, event);
                let step = before.publication.steps(segment)[position as int];
                if before.publication.checked(step, event) is Ok {
                    match step {
                        PublicationStep::ReadBack(location) => {
                            assert(confirms(before, inputs.last()) == Some(location));
                        },
                        _ => {},
                    }
                }
            },
            (_, PublicationInput::Event(event)) => {
                lemma_step_around_the_commit(before, event);
            },
            _ => {},
        }
    }
}

/// `PUBLISHED` is created only after `COMMITTED` was read back, and after that both documents with
/// exactly their bytes; and an Agent is reported as published only then.
pub proof fn law_published_needs_a_confirmed_commit(
    start: PublicationMoment,
    inputs: Seq<PublicationInput>,
)
    requires
        is_start(start),
        ({
            let end = after_inputs(start, inputs).publication;
            ||| end.action() == PublicationAction::Perform(
                PublicationStep::CreateFile(StoreLocation::Published(start.publication.key())),
            )
            ||| end.state matches PublicationStateView::Finished(result) && result is Published
        }),
    ensures
        commit_is_confirmed(start, inputs),
{
    lemma_confirmation(start, inputs);
    lemma_stages(start, inputs);
    let end = after_inputs(start, inputs);
    match end.publication.state {
        PublicationStateView::Stepping { segment, position } => {
            lemma_marker_owner(end.publication, segment, position as int);
        },
        _ => {},
    }
}

proof fn lemma_marker_owner(publication: PublicationView, segment: PublicationSegment, i: int)
    requires
        0 <= i < publication.steps(segment).len(),
        publication.steps(segment)[i] == PublicationStep::CreateFile(
            StoreLocation::Published(publication.key()),
        ),
    ensures
        segment is Publish,
{
    reveal(publication::segment_steps);
}

/// Staging is read for removal only before the barrier, or after the marker behind it was found to
/// be absent.
pub proof fn law_removal_needs_an_absent_marker(moment: PublicationMoment, event: PublicationEvent)
    requires
        stage_fits(moment),
        moment.publication.state !is Staging,
        moment.after(event).publication.state is Staging,
    ensures
        moment.publication.state matches PublicationStateView::Stepping { segment, position } && (
        segment is Precommit || ((segment is CommittedCheck || segment is PublishedCheck)
            && position == 0 && (event matches PublicationEvent::ReadBack(observation)
            && observation.certainty(Seq::empty(), moment.publication.limits) is NotPublished))),
{
    match moment.publication.state {
        PublicationStateView::Stepping { segment, position } => {
            lemma_readback_positions(moment.publication);
            if segment is Precommit {
                lemma_precommit_creates_no_marker(moment.publication, position as int);
            }
        },
        _ => {},
    }
}

/// Nothing is done any more once a publication has ended, so nothing is removed once it is poisoned.
pub proof fn law_the_end_is_final(moment: PublicationMoment, input: PublicationInput)
    requires
        moment.publication.state is Finished,
    ensures
        after_input(moment, input).publication == moment.publication,
        moment.publication.action() is Finished,
{
}

/// How far a removal is from its end.
spec fn removal_rank(run: CleanupRunView) -> int {
    if run.phase is Failed || run.position >= run.steps.len() {
        0
    } else if run.phase is Inspecting {
        2 * (run.steps.len() - run.position) - 1
    } else {
        2 * (run.steps.len() - run.position)
    }
}

/// How far a publication is from its end: the stretch it is in, and what is left of that stretch.
pub closed spec fn rank(publication: PublicationView) -> (int, int) {
    match publication.state {
        PublicationStateView::Stepping { segment, position } => (
            match segment {
                PublicationSegment::Precommit => 11,
                PublicationSegment::Commit => 10,
                PublicationSegment::CommittedCheck => 9,
                PublicationSegment::CommittedResync => 8,
                PublicationSegment::Publish { .. } => 7,
                PublicationSegment::PublishedCheck { .. } => 6,
                PublicationSegment::PublishedResync { .. } => 5,
                PublicationSegment::PublishedRecovery { .. } => 4,
            },
            publication.steps(segment).len() - position,
        ),
        PublicationStateView::Staging { .. } => (3, 0),
        PublicationStateView::Planned { .. } => (2, 0),
        PublicationStateView::Removing { run, .. } => (1, removal_rank(run)),
        PublicationStateView::Finished(_) => (0, 0),
    }
}

/// Whether a removal is in the middle of its steps.
spec fn is_unfinished(run: CleanupRunView) -> bool {
    &&& !(run.phase is Failed)
    &&& run.position < run.steps.len()
}

/// Every answer brings a publication closer to its end: it never goes on for ever.
pub proof fn law_every_answer_leads_on(moment: PublicationMoment, event: PublicationEvent)
    requires
        stage_fits(moment),
        moment.publication.state !is Finished,
    ensures
        ({
            let before = rank(moment.publication);
            let after = rank(moment.after(event).publication);
            &&& after.0 >= 0
            &&& after.1 >= 0
            &&& after.0 < before.0 || (after.0 == before.0 && after.1 < before.1)
        }),
{
    let next = moment.after(event);
    lemma_stage_fits(moment, PublicationInput::Event(event));
    match moment.publication.state {
        PublicationStateView::Removing { run, .. } => {
            assert(is_unfinished(run));
        },
        PublicationStateView::Stepping { segment, position } => {
            if segment is Precommit {
                lemma_precommit_creates_no_marker(moment.publication, position as int);
            }
        },
        _ => {},
    }
}

/// The steps of an undisturbed publication up to the confirmation of `COMMITTED`.
pub open spec fn commit_path(publication: PublicationView) -> Seq<PublicationStep> {
    publication.steps(PublicationSegment::Precommit) + publication.steps(
        PublicationSegment::Commit,
    )
}

/// Whether a publication met no failure before `PUBLISHED`.
pub open spec fn is_undisturbed(state: PublicationStateView) -> bool {
    match state {
        PublicationStateView::Stepping { segment, .. } => match segment {
            PublicationSegment::Precommit => true,
            PublicationSegment::Commit => true,
            PublicationSegment::Publish { close_required } => !close_required,
            PublicationSegment::PublishedCheck { close_required, .. } => !close_required,
            PublicationSegment::PublishedResync { close_required } => !close_required,
            PublicationSegment::PublishedRecovery { close_required } => !close_required,
            _ => false,
        },
        PublicationStateView::Finished(result) => match result {
            PublicationResultView::Published { close_required, .. } => !close_required,
            _ => false,
        },
        _ => false,
    }
}

/// What an undisturbed publication has performed at each place.
spec fn path_fits_at(publication: PublicationView, done: Seq<PublicationStep>) -> bool {
    let path = commit_path(publication);
    is_undisturbed(publication.state) ==> match publication.state {
        PublicationStateView::Stepping { segment, position } => match segment {
            PublicationSegment::Precommit => done == path.take(position as int),
            PublicationSegment::Commit => done == path.take(
                publication.steps(PublicationSegment::Precommit).len() + position as int,
            ),
            _ => path.is_prefix_of(done),
        },
        _ => path.is_prefix_of(done),
    }
}

spec fn path_fits(start: PublicationMoment, inputs: Seq<PublicationInput>) -> bool {
    path_fits_at(after_inputs(start, inputs).publication, performed(start, inputs))
}

/// How an undisturbed publication moves on.
proof fn lemma_undisturbed_step(moment: PublicationMoment, event: PublicationEvent)
    requires
        stage_fits(moment),
        is_undisturbed(moment.after(event).publication.state),
    ensures
        is_undisturbed(moment.publication.state),
        ({
            let next = moment.after(event).publication.state;
            match moment.publication.state {
                PublicationStateView::Stepping { segment, position } => match segment {
                    PublicationSegment::Precommit => next == PublicationStateView::Stepping {
                        segment,
                        position: position + 1,
                    } || (position + 1 == moment.publication.steps(segment).len() && next
                        == PublicationStateView::start(PublicationSegment::Commit)),
                    PublicationSegment::Commit => next == PublicationStateView::Stepping {
                        segment,
                        position: position + 1,
                    } || (position + 1 == moment.publication.steps(segment).len() && next
                        == PublicationStateView::start(
                        PublicationSegment::Publish { close_required: false },
                    )),
                    _ => is_past_path(next),
                },
                _ => is_past_path(next),
            }
        }),
{
    match moment.publication.state {
        PublicationStateView::Stepping { segment, position } => {
            if segment is Precommit {
                lemma_precommit_creates_no_marker(moment.publication, position as int);
            }
            if segment is Commit {
                lemma_commit_does_not_recover(moment.publication, position as int);
            }
        },
        _ => {},
    }
}

spec fn is_past_path(state: PublicationStateView) -> bool {
    match state {
        PublicationStateView::Stepping { segment, .. } => !(segment is Precommit || segment
            is Commit),
        _ => true,
    }
}

/// One more step along a path.
proof fn lemma_take_step(
    first: Seq<PublicationStep>,
    second: Seq<PublicationStep>,
    done: Seq<PublicationStep>,
    position: int,
)
    requires
        0 <= position < first.len() + second.len(),
        done == (first + second).take(position),
    ensures
        position < first.len() ==> done.push(first[position]) == (first + second).take(
            position + 1,
        ),
        position >= first.len() ==> done.push(second[position - first.len()]) == (first
            + second).take(position + 1),
        (first + second).take((first + second).len() as int) == first + second,
{
    let path = first + second;
    assert(path.take(position + 1) =~= path.take(position).push(path[position]));
    assert(path.take(path.len() as int) =~= path);
}

proof fn lemma_path(start: PublicationMoment, inputs: Seq<PublicationInput>)
    requires
        is_start(start),
    ensures
        path_fits(start, inputs),
    decreases inputs.len(),
{
    let end = after_inputs(start, inputs).publication;
    let path = commit_path(end);
    if inputs.len() == 0 {
        assert(path.take(0) =~= seq![]);
    } else {
        let front = inputs.drop_last();
        lemma_path(start, front);
        lemma_stages(start, front);
        lemma_stages(start, inputs);
        let before = after_inputs(start, front);
        let done = performed(start, front);
        assert(commit_path(before.publication) == path);
        match inputs.last() {
            PublicationInput::Cancel => {
                assert(performed(start, inputs) == done);
            },
            PublicationInput::Event(event) => {
                if is_undisturbed(end.state) {
                    lemma_undisturbed_step(before, event);
                    lemma_path_step(before, event, done);
                }
            },
        }
    }
}

/// The path after one answer.
proof fn lemma_path_step(
    before: PublicationMoment,
    event: PublicationEvent,
    done: Seq<PublicationStep>,
)
    requires
        stage_fits(before),
        is_undisturbed(before.after(event).publication.state),
        path_fits_at(before.publication, done),
    ensures
        path_fits_at(
            before.after(event).publication,
            match before.publication.action() {
                PublicationAction::Perform(step) => done.push(step),
                _ => done,
            },
        ),
{
    lemma_undisturbed_step(before, event);
    let publication = before.publication;
    let precommit = publication.steps(PublicationSegment::Precommit);
    let commit = publication.steps(PublicationSegment::Commit);
    let path = precommit + commit;
    assert(commit_path(before.after(event).publication) == path);
    match publication.state {
        PublicationStateView::Stepping { segment, position } => {
            let step = publication.steps(segment)[position as int];
            match segment {
                PublicationSegment::Precommit => {
                    lemma_take_step(precommit, commit, done, position as int);
                },
                PublicationSegment::Commit => {
                    lemma_take_step(
                        precommit,
                        commit,
                        done,
                        precommit.len() + position as int,
                    );
                    if position + 1 == commit.len() {
                        assert(done.push(step) == path);
                        assert(path.is_prefix_of(done.push(step)));
                    }
                },
                _ => {
                    assert(path.is_prefix_of(done));
                    assert(path.is_prefix_of(done.push(step)));
                },
            }
        },
        _ => {},
    }
}

proof fn lemma_commit_does_not_recover(publication: PublicationView, i: int)
    requires
        0 <= i < publication.steps(PublicationSegment::Commit).len(),
    ensures
        !(publication.steps(PublicationSegment::Commit)[i] is Recover),
{
    reveal(publication::segment_steps);
}

/// A publication that ends without asking its owner to close has performed, in this order and with
/// nothing in between, the whole staging and the whole creation and readback of `COMMITTED`.
pub proof fn law_clean_publication_follows_the_path(
    start: PublicationMoment,
    inputs: Seq<PublicationInput>,
)
    requires
        is_start(start),
        after_inputs(start, inputs).publication.state matches PublicationStateView::Finished(
            PublicationResultView::Published { close_required, .. },
        ) && !close_required,
    ensures
        commit_path(start.publication).is_prefix_of(performed(start, inputs)),
{
    lemma_path(start, inputs);
    lemma_stages(start, inputs);
    assert(commit_path(after_inputs(start, inputs).publication) == commit_path(start.publication));
}

} // verus!
