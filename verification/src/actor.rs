//! The serial owner of all durable changes: what it answers, in which order, and when it closes.

use crate::agent_chain;
use crate::agent_chain::{validate_generation_one_agent_semantics, AgentEntryView};
use crate::generation::StorageGeneration;
use crate::head::{AgentHeadView, DurableAgentHead};
use crate::ids::AgentId;
use crate::lifecycle::{
    AgentDefinition, AgentDefinitionView, AgentMetadata, AgentMetadataView, AgentStatus,
};
use crate::open_error::DurableAgentCreateError;
use crate::publication_check::{PublicationResultView, PublicationWorkResult};
use crate::session_chain;
use crate::session_chain::AgentCatalog;
use vstd::prelude::*;

verus! {

/// How many requests may wait for the owner.
pub const DURABLE_STATE_ACTOR_QUEUE_CAPACITY: usize = 1;

/// How a request got into the queue, or why not.
#[derive(Clone, Copy, Debug, PartialEq, Eq, Structural)]
pub enum Admission {
    /// A place in the queue was given: from here on the owner answers.
    Admitted,
    Rejected(DurableAgentCreateError),
}

/// What a caller that waits for a place in the queue saw first.
#[derive(Clone, Copy, Debug, PartialEq, Eq, Structural)]
pub enum AdmissionWait {
    Closing,
    Place,
    /// The queue no longer takes requests; `closing` says whether the owner was closing by then.
    Refused { closing: bool },
}

/// What a caller gets for what it saw first.
pub open spec fn admission_after(wait: AdmissionWait) -> Admission {
    match wait {
        AdmissionWait::Place => Admission::Admitted,
        AdmissionWait::Refused { closing: false } => Admission::Rejected(
            DurableAgentCreateError::InternalDispatchUnavailable,
        ),
        _ => Admission::Rejected(DurableAgentCreateError::Closing),
    }
}

/// Decides on the admission of a request.
pub fn admit_create_request(wait: AdmissionWait) -> (admission: Admission)
    ensures
        admission == admission_after(wait),
        admission == match wait {
            AdmissionWait::Place => Admission::Admitted,
            AdmissionWait::Refused { closing: false } => Admission::Rejected(
                DurableAgentCreateError::InternalDispatchUnavailable,
            ),
            _ => Admission::Rejected(DurableAgentCreateError::Closing),
        },
{
    match wait {
        AdmissionWait::Place => Admission::Admitted,
        AdmissionWait::Closing => Admission::Rejected(DurableAgentCreateError::Closing),
        AdmissionWait::Refused { closing } => if closing {
            Admission::Rejected(DurableAgentCreateError::Closing)
        } else {
            Admission::Rejected(DurableAgentCreateError::InternalDispatchUnavailable)
        },
    }
}

/// What a request is told that is dropped without an answer.
pub open spec fn abandonment(closing: bool) -> DurableAgentCreateError {
    if closing {
        DurableAgentCreateError::Closing
    } else {
        DurableAgentCreateError::InternalDispatchUnavailable
    }
}

/// The answer to a request that is dropped without one.
pub fn abandoned_request_error(closing: bool) -> (error: DurableAgentCreateError)
    ensures
        error == abandonment(closing),
        error == if closing {
            DurableAgentCreateError::Closing
        } else {
            DurableAgentCreateError::InternalDispatchUnavailable
        },
{
    if closing {
        DurableAgentCreateError::Closing
    } else {
        DurableAgentCreateError::InternalDispatchUnavailable
    }
}

/// What a create request does with the outcome of its reservation.
pub open spec fn after_reservation(
    reserved: Result<AgentId, DurableAgentCreateError>,
    closing: bool,
) -> Result<AgentId, PublicationResultView> {
    match reserved {
        Err(error) => if error is InternalDispatchUnavailable {
            Err(PublicationResultView::Poisoned)
        } else {
            Err(PublicationResultView::Ordinary { error, close_required: false })
        },
        Ok(agent_id) => if closing {
            Err(
                PublicationResultView::Ordinary {
                    error: DurableAgentCreateError::Closing,
                    close_required: false,
                },
            )
        } else {
            Ok(agent_id)
        },
    }
}

pub open spec fn reservation_result(result: Result<AgentId, PublicationWorkResult>) -> Result<
    AgentId,
    PublicationResultView,
> {
    match result {
        Ok(agent_id) => Ok(agent_id),
        Err(result) => Err(result@),
    }
}

/// Decides whether a reserved identity is published. The reservation stays either way.
pub fn continue_after_reservation(
    reserved: Result<AgentId, DurableAgentCreateError>,
    closing: bool,
) -> (result: Result<AgentId, PublicationWorkResult>)
    ensures
        reservation_result(result) == after_reservation(reserved, closing),
{
    match reserved {
        Err(DurableAgentCreateError::InternalDispatchUnavailable) => Err(
            PublicationWorkResult::Poisoned,
        ),
        Err(error) => Err(PublicationWorkResult::Ordinary { error, close_required: false }),
        Ok(agent_id) => if closing {
            Err(
                PublicationWorkResult::Ordinary {
                    error: DurableAgentCreateError::Closing,
                    close_required: false,
                },
            )
        } else {
            Ok(agent_id)
        },
    }
}

/// The head of a new Agent.
pub open spec fn first_head(
    agent_id: u128,
    definition: AgentDefinitionView,
    metadata: AgentMetadataView,
) -> AgentHeadView {
    AgentHeadView {
        agent_id,
        storage_generation: 1,
        previous_storage_generation: None,
        current_definition_revision: definition.revision,
        current_definition_storage_generation: 1,
        metadata,
        status: AgentStatus::Enabled,
        created_at: definition.created_at,
    }
}

/// Makes the head of a new Agent; documents that are not those of a first generation give none.
pub fn first_agent_head(agent_id: AgentId, definition: &AgentDefinition, metadata: AgentMetadata) -> (
    head: Option<DurableAgentHead>)
    ensures
        head is Some <==> agent_chain::first_agent_generation_is_valid(
            agent_id@,
            1,
            first_head(agent_id@, definition@, metadata@),
            definition@,
        ),
        head matches Some(head) ==> head@ == first_head(agent_id@, definition@, metadata@),
        head is Some <==> definition.agent_id@ == agent_id@ && definition.revision@ == 1
            && metadata.revision@ == 1 && metadata.updated_at == definition.created_at,
        head matches Some(head) ==> {
            &&& head@.agent_id == agent_id@
            &&& head@.storage_generation == 1 && head@.previous_storage_generation == None::<nat>
            &&& head@.current_definition_revision == 1
            &&& head@.current_definition_storage_generation == 1
            &&& head@.metadata == metadata@
            &&& head@.status == AgentStatus::Enabled
            &&& head@.created_at == definition.created_at
        },
{
    let generation = StorageGeneration::first();
    let head = match DurableAgentHead::new(
        agent_id,
        generation,
        None,
        definition.revision,
        generation,
        metadata,
        AgentStatus::Enabled,
        definition.created_at,
    ) {
        Ok(head) => head,
        Err(_) => return None,
    };
    if validate_generation_one_agent_semantics(
        agent_id.value(),
        generation,
        &head,
        definition,
    ).is_err() {
        return None;
    }
    Some(head)
}

/// What happens to the owner.
pub enum ActorEvent {
    /// It is idle and was asked to close.
    ClosingObserved,
    /// It is idle and every caller is gone.
    QueueEnded,
    /// It took the next request from its queue; `closing` says whether it was asked to close by then.
    Received { closing: bool },
    /// The current request came to its end.
    Processed(PublicationWorkResult),
}

/// An event with its result as a model.
pub enum ActorEventView {
    ClosingObserved,
    QueueEnded,
    Received { closing: bool },
    Processed(PublicationResultView),
}

impl View for ActorEvent {
    type V = ActorEventView;

    open spec fn view(&self) -> ActorEventView {
        match self {
            ActorEvent::ClosingObserved => ActorEventView::ClosingObserved,
            ActorEvent::QueueEnded => ActorEventView::QueueEnded,
            ActorEvent::Received { closing } => ActorEventView::Received { closing: *closing },
            ActorEvent::Processed(result) => ActorEventView::Processed(result@),
        }
    }
}

/// One thing that the owner does.
#[derive(Clone, Copy, PartialEq, Eq)]
pub enum ActorEffect {
    /// Works on the current request.
    Process,
    /// Answers the current request: with the head of this Agent, or with a failure.
    Settle(Result<u128, DurableAgentCreateError>),
    /// Asks everything that shares its tasks to close, and itself.
    RequestClosing,
    /// Takes no further request into the queue.
    CloseReceiver,
    /// Answers every queued request, the oldest first.
    RejectQueued(DurableAgentCreateError),
    /// Ends. An unclean end also asks everything that shares its tasks to close.
    Stop { clean: bool },
}

/// The end of an owner that was asked to close.
pub open spec fn closing_effects(error: DurableAgentCreateError) -> Seq<ActorEffect> {
    seq![
        ActorEffect::CloseReceiver,
        ActorEffect::RejectQueued(error),
        ActorEffect::Stop { clean: true },
    ]
}

/// What an answered request leads to.
pub open spec fn closes_if(close_required: bool, error: DurableAgentCreateError) -> Seq<ActorEffect> {
    if close_required {
        seq![ActorEffect::RequestClosing] + closing_effects(error)
    } else {
        seq![]
    }
}

/// The answer to the current request, for each event.
pub open spec fn answer(event: ActorEventView) -> Seq<ActorEffect> {
    match event {
        ActorEventView::Processed(PublicationResultView::Published { entry, .. }) => seq![
            ActorEffect::Settle(Ok(entry.head.agent_id)),
        ],
        ActorEventView::Processed(PublicationResultView::Ordinary { error, .. }) => seq![
            ActorEffect::Settle(Err(error)),
        ],
        ActorEventView::Processed(PublicationResultView::Poisoned) => seq![
            ActorEffect::Settle(Err(DurableAgentCreateError::InternalDispatchUnavailable)),
        ],
        _ => seq![],
    }
}

/// What the owner does about an event, in order.
pub open spec fn effects_of(event: ActorEventView) -> Seq<ActorEffect> {
    match event {
        ActorEventView::ClosingObserved => closing_effects(DurableAgentCreateError::Closing),
        ActorEventView::QueueEnded => seq![ActorEffect::Stop { clean: false }],
        ActorEventView::Received { closing } => if closing {
            seq![
                ActorEffect::CloseReceiver,
                ActorEffect::Settle(Err(DurableAgentCreateError::Closing)),
                ActorEffect::RejectQueued(DurableAgentCreateError::Closing),
                ActorEffect::Stop { clean: true },
            ]
        } else {
            seq![ActorEffect::Process]
        },
        ActorEventView::Processed(result) => answer(event) + match result {
            PublicationResultView::Published { close_required, .. } => closes_if(
                close_required,
                DurableAgentCreateError::Closing,
            ),
            PublicationResultView::Ordinary { close_required, .. } => closes_if(
                close_required,
                DurableAgentCreateError::Closing,
            ),
            PublicationResultView::Poisoned => closes_if(
                true,
                DurableAgentCreateError::InternalDispatchUnavailable,
            ),
        },
    }
}

/// The published Agents after an event.
pub open spec fn installed(published: Map<u128, AgentEntryView>, event: ActorEventView) -> Map<
    u128,
    AgentEntryView,
> {
    match event {
        ActorEventView::Processed(PublicationResultView::Published { entry, .. }) =>
            published.insert(entry.head.agent_id, entry),
        _ => published,
    }
}

fn push_closing(effects: &mut Vec<ActorEffect>, error: DurableAgentCreateError)
    ensures
        final(effects)@ == old(effects)@ + closing_effects(error),
{
    effects.push(ActorEffect::CloseReceiver);
    effects.push(ActorEffect::RejectQueued(error));
    effects.push(ActorEffect::Stop { clean: true });
    assert(effects@ =~= old(effects)@ + closing_effects(error));
}

fn push_closing_if(
    effects: &mut Vec<ActorEffect>,
    close_required: bool,
    error: DurableAgentCreateError,
)
    ensures
        final(effects)@ == old(effects)@ + closes_if(close_required, error),
{
    if close_required {
        effects.push(ActorEffect::RequestClosing);
        push_closing(effects, error);
    }
    assert(effects@ =~= old(effects)@ + closes_if(close_required, error));
}

/// Decides what the owner does about an event. A published Agent is installed before its request is
/// answered.
pub fn decide(event: ActorEvent, published: &mut AgentCatalog) -> (effects: Vec<ActorEffect>)
    ensures
        effects@ == effects_of(event@),
        session_chain::agent_models(final(published)@) == installed(
            session_chain::agent_models(old(published)@),
            event@,
        ),
{
    let mut effects: Vec<ActorEffect> = Vec::new();
    match event {
        ActorEvent::ClosingObserved => {
            push_closing(&mut effects, DurableAgentCreateError::Closing);
        },
        ActorEvent::QueueEnded => {
            effects.push(ActorEffect::Stop { clean: false });
        },
        ActorEvent::Received { closing } => {
            if closing {
                effects.push(ActorEffect::CloseReceiver);
                effects.push(ActorEffect::Settle(Err(DurableAgentCreateError::Closing)));
                effects.push(ActorEffect::RejectQueued(DurableAgentCreateError::Closing));
                effects.push(ActorEffect::Stop { clean: true });
            } else {
                effects.push(ActorEffect::Process);
            }
        },
        ActorEvent::Processed(PublicationWorkResult::Published { entry, close_required }) => {
            let agent_id: u128 = entry.current_head.agent_id().value();
            let ghost before = published@;
            let ghost model = entry;
            published.insert(agent_id, entry);
            assert(session_chain::agent_models(published@) =~= session_chain::agent_models(
                before,
            ).insert(model@.head.agent_id, model@));
            effects.push(ActorEffect::Settle(Ok(agent_id)));
            push_closing_if(&mut effects, close_required, DurableAgentCreateError::Closing);
        },
        ActorEvent::Processed(PublicationWorkResult::Ordinary { error, close_required }) => {
            effects.push(ActorEffect::Settle(Err(error)));
            push_closing_if(&mut effects, close_required, DurableAgentCreateError::Closing);
        },
        ActorEvent::Processed(PublicationWorkResult::Poisoned) => {
            effects.push(
                ActorEffect::Settle(Err(DurableAgentCreateError::InternalDispatchUnavailable)),
            );
            push_closing_if(
                &mut effects,
                true,
                DurableAgentCreateError::InternalDispatchUnavailable,
            );
        },
    }
    assert(effects@ =~= effects_of(event@));
    effects
}

/// An owner with its queue and its callers, as a whole. Requests are known by numbers.
pub struct OwnerModel {
    /// Every request that was admitted, in order.
    pub admitted: Seq<nat>,
    /// Every answer that was given, in order.
    pub answered: Seq<(nat, Result<u128, DurableAgentCreateError>)>,
    pub current: Option<nat>,
    pub queued: Seq<nat>,
    pub published: Map<u128, AgentEntryView>,
    /// Whether the queue still takes requests.
    pub accepting: bool,
    /// Whether the owner was asked to close.
    pub closing: bool,
    /// How the owner ended.
    pub stopped: Option<bool>,
}

/// What happens around an owner.
pub enum OwnerInput {
    /// A caller finds a place in the queue.
    Admit(nat),
    /// The owner is asked to close.
    Close,
    /// The owner finds its queue closed and empty.
    EndQueue,
    /// The owner notices that it was asked to close.
    ObserveClosing,
    /// The owner takes the oldest request.
    Receive,
    /// The current request comes to its end.
    Finish(PublicationResultView),
}

pub open spec fn rejections(requests: Seq<nat>, error: DurableAgentCreateError) -> Seq<
    (nat, Result<u128, DurableAgentCreateError>),
> {
    Seq::new(
        requests.len(),
        |i: int| (requests[i], Err::<u128, DurableAgentCreateError>(error)),
    )
}

impl OwnerModel {
    /// An owner that has just started.
    pub open spec fn is_new(self) -> bool {
        &&& self.admitted == Seq::<nat>::empty()
        &&& self.answered == Seq::<(nat, Result<u128, DurableAgentCreateError>)>::empty()
        &&& self.current is None
        &&& self.queued == Seq::<nat>::empty()
        &&& self.accepting
        &&& self.stopped is None
    }

    pub open spec fn with_effect(self, effect: ActorEffect) -> Self {
        match effect {
            ActorEffect::Process => self,
            ActorEffect::Settle(result) => match self.current {
                Some(request) => OwnerModel {
                    answered: self.answered.push((request, result)),
                    current: None,
                    ..self
                },
                None => self,
            },
            ActorEffect::RequestClosing => OwnerModel { closing: true, ..self },
            ActorEffect::CloseReceiver => OwnerModel { accepting: false, ..self },
            ActorEffect::RejectQueued(error) => OwnerModel {
                answered: self.answered + rejections(self.queued, error),
                queued: Seq::empty(),
                ..self
            },
            ActorEffect::Stop { clean } => OwnerModel { stopped: Some(clean), ..self },
        }
    }

    pub open spec fn with_effects(self, effects: Seq<ActorEffect>) -> Self
        decreases effects.len(),
    {
        if effects.len() == 0 {
            self
        } else {
            self.with_effects(effects.drop_last()).with_effect(effects.last())
        }
    }

    /// The owner after it decided on an event.
    pub open spec fn with_event(self, event: ActorEventView) -> Self {
        OwnerModel { published: installed(self.published, event), ..self }.with_effects(
            effects_of(event),
        )
    }

    /// The owner after an input. What cannot happen in a state leaves it as it is.
    pub open spec fn after(self, input: OwnerInput) -> Self {
        if self.stopped is Some {
            self
        } else {
            match input {
                OwnerInput::Admit(request) => if self.accepting {
                    OwnerModel {
                        admitted: self.admitted.push(request),
                        queued: self.queued.push(request),
                        ..self
                    }
                } else {
                    self
                },
                OwnerInput::Close => OwnerModel { closing: true, ..self },
                OwnerInput::EndQueue => if self.current is None && self.queued.len() == 0 {
                    self.with_event(ActorEventView::QueueEnded)
                } else {
                    self
                },
                OwnerInput::ObserveClosing => if self.current is None && self.closing {
                    self.with_event(ActorEventView::ClosingObserved)
                } else {
                    self
                },
                OwnerInput::Receive => if self.current is None && self.queued.len() > 0 {
                    OwnerModel {
                        current: Some(self.queued[0]),
                        queued: self.queued.skip(1),
                        ..self
                    }.with_event(ActorEventView::Received { closing: self.closing })
                } else {
                    self
                },
                OwnerInput::Finish(result) => if self.current is Some {
                    self.with_event(ActorEventView::Processed(result))
                } else {
                    self
                },
            }
        }
    }

    /// Whether an input ends the current request.
    pub open spec fn ends_request(self, input: OwnerInput) -> bool {
        input is Finish && self.stopped is None && self.current is Some
    }

    /// What holds at all times: the admitted requests are the answered ones, the current one and the
    /// queued ones, in this order; every Agent that was answered is published.
    pub open spec fn is_sound(self) -> bool {
        &&& self.admitted == self.answered.map_values(
            |answer: (nat, Result<u128, DurableAgentCreateError>)| answer.0,
        ) + pending(self.current) + self.queued
        &&& self.stopped == Some(true) ==> !self.accepting && self.closing && self.current is None
            && self.queued.len() == 0
        &&& self.stopped == Some(false) ==> self.current is None && self.queued.len() == 0
        &&& forall|i: int|
            0 <= i < self.answered.len() ==> match #[trigger] self.answered[i].1 {
                Ok(agent_id) => self.published.contains_key(agent_id),
                Err(_) => true,
            }
    }
}

pub open spec fn pending(current: Option<nat>) -> Seq<nat> {
    match current {
        Some(request) => seq![request],
        None => seq![],
    }
}

pub open spec fn owner_after(start: OwnerModel, inputs: Seq<OwnerInput>) -> OwnerModel
    decreases inputs.len(),
{
    if inputs.len() == 0 {
        start
    } else {
        owner_after(start, inputs.drop_last()).after(inputs.last())
    }
}

/// One answer more.
proof fn lemma_answered_ids(
    answered: Seq<(nat, Result<u128, DurableAgentCreateError>)>,
    request: nat,
    result: Result<u128, DurableAgentCreateError>,
    queued: Seq<nat>,
    error: DurableAgentCreateError,
)
    ensures
        ({
            let id = |answer: (nat, Result<u128, DurableAgentCreateError>)| answer.0;
            &&& answered.push((request, result)).map_values(id) == answered.map_values(id).push(
                request,
            )
            &&& (answered + rejections(queued, error)).map_values(id) == answered.map_values(id)
                + queued
        }),
{
    let id = |answer: (nat, Result<u128, DurableAgentCreateError>)| answer.0;
    assert(answered.push((request, result)).map_values(id) =~= answered.map_values(id).push(request));
    assert((answered + rejections(queued, error)).map_values(id) =~= answered.map_values(id)
        + queued);
}

proof fn lemma_one_effect(model: OwnerModel, effect: ActorEffect)
    ensures
        model.with_effects(seq![effect]) == model.with_effect(effect),
        model.with_effects(seq![]) == model,
{
    let effects = seq![effect];
    assert(effects.drop_last() =~= seq![]);
    assert(model.with_effects(effects.drop_last()) == model);
}

proof fn lemma_effects_in_turn(model: OwnerModel, first: Seq<ActorEffect>, second: Seq<ActorEffect>)
    ensures
        model.with_effects(first + second) == model.with_effects(first).with_effects(second),
    decreases second.len(),
{
    if second.len() == 0 {
        assert(first + second =~= first);
    } else {
        let both = first + second;
        assert(both.drop_last() =~= first + second.drop_last());
        assert(both.last() == second.last());
        lemma_effects_in_turn(model, first, second.drop_last());
    }
}

/// How an owner ends that was asked to close.
proof fn lemma_closing(model: OwnerModel, error: DurableAgentCreateError)
    ensures
        model.with_effects(closing_effects(error)) == (OwnerModel {
            answered: model.answered + rejections(model.queued, error),
            queued: Seq::empty(),
            accepting: false,
            stopped: Some(true),
            ..model
        }),
{
    let close = seq![ActorEffect::CloseReceiver];
    let reject = seq![ActorEffect::RejectQueued(error)];
    let stop = seq![ActorEffect::Stop { clean: true }];
    assert(closing_effects(error) =~= close + reject + stop);
    lemma_effects_in_turn(model, close + reject, stop);
    lemma_effects_in_turn(model, close, reject);
    lemma_one_effect(model, close[0]);
    lemma_one_effect(model.with_effect(close[0]), reject[0]);
    lemma_one_effect(model.with_effect(close[0]).with_effect(reject[0]), stop[0]);
}

proof fn lemma_closes_if(model: OwnerModel, close_required: bool, error: DurableAgentCreateError)
    ensures
        model.with_effects(closes_if(close_required, error)) == if close_required {
            OwnerModel {
                answered: model.answered + rejections(model.queued, error),
                queued: Seq::empty(),
                accepting: false,
                closing: true,
                stopped: Some(true),
                ..model
            }
        } else {
            model
        },
{
    if close_required {
        let request = seq![ActorEffect::RequestClosing];
        lemma_effects_in_turn(model, request, closing_effects(error));
        lemma_one_effect(model, request[0]);
        lemma_closing(model.with_effect(request[0]), error);
    }
}

/// The owner after a request was received while it was closing.
proof fn lemma_received_while_closing(model: OwnerModel)
    requires
        model.current is Some,
    ensures
        model.with_event(ActorEventView::Received { closing: true }) == (OwnerModel {
            answered: model.answered.push(
                (model.current->0, Err(DurableAgentCreateError::Closing)),
            ) + rejections(model.queued, DurableAgentCreateError::Closing),
            current: None,
            queued: Seq::empty(),
            accepting: false,
            stopped: Some(true),
            ..model
        }),
{
    let error = DurableAgentCreateError::Closing;
    let close = seq![ActorEffect::CloseReceiver];
    let settle = seq![ActorEffect::Settle(Err(error))];
    let reject = seq![ActorEffect::RejectQueued(error)];
    let stop = seq![ActorEffect::Stop { clean: true }];
    let effects = effects_of(ActorEventView::Received { closing: true });
    assert(effects =~= close + settle + reject + stop);
    lemma_effects_in_turn(model, close + settle + reject, stop);
    lemma_effects_in_turn(model, close + settle, reject);
    lemma_effects_in_turn(model, close, settle);
    let closed = model.with_effect(close[0]);
    lemma_one_effect(model, close[0]);
    lemma_one_effect(closed, settle[0]);
    lemma_one_effect(closed.with_effect(settle[0]), reject[0]);
    lemma_one_effect(closed.with_effect(settle[0]).with_effect(reject[0]), stop[0]);
    assert(OwnerModel { published: installed(model.published, ActorEventView::Received { closing: true }), ..model } == model);
}

/// The answer that the current request gets.
pub open spec fn answer_to(result: PublicationResultView) -> Result<u128, DurableAgentCreateError> {
    match result {
        PublicationResultView::Published { entry, .. } => Ok(entry.head.agent_id),
        PublicationResultView::Ordinary { error, .. } => Err(error),
        PublicationResultView::Poisoned => Err(DurableAgentCreateError::InternalDispatchUnavailable),
    }
}

/// Whether the owner closes after a result.
pub open spec fn closes_after(result: PublicationResultView) -> bool {
    match result {
        PublicationResultView::Published { close_required, .. } => close_required,
        PublicationResultView::Ordinary { close_required, .. } => close_required,
        PublicationResultView::Poisoned => true,
    }
}

/// What the queued requests are answered after a result that closes the owner.
pub open spec fn rejection_after(result: PublicationResultView) -> DurableAgentCreateError {
    if result is Poisoned {
        DurableAgentCreateError::InternalDispatchUnavailable
    } else {
        DurableAgentCreateError::Closing
    }
}

/// The end of a request: its answer comes before everything else; what is published is installed by
/// then; and where the result asks for it, the owner closes and answers every queued request.
pub proof fn law_end_of_a_request(model: OwnerModel, result: PublicationResultView)
    requires
        model.stopped is None,
        model.current is Some,
    ensures
        ({
            let answered = OwnerModel {
                published: installed(model.published, ActorEventView::Processed(result)),
                answered: model.answered.push((model.current->0, answer_to(result))),
                current: None,
                ..model
            };
            model.after(OwnerInput::Finish(result)) == if closes_after(result) {
                OwnerModel {
                    answered: answered.answered + rejections(
                        model.queued,
                        rejection_after(result),
                    ),
                    queued: Seq::empty(),
                    accepting: false,
                    closing: true,
                    stopped: Some(true),
                    ..answered
                }
            } else {
                answered
            }
        }),
{
    let event = ActorEventView::Processed(result);
    let start = OwnerModel { published: installed(model.published, event), ..model };
    let first = answer(event);
    let second = closes_if(closes_after(result), rejection_after(result));
    assert(first =~= seq![ActorEffect::Settle(answer_to(result))]);
    assert(effects_of(event) == first + second);
    lemma_effects_in_turn(start, first, second);
    lemma_one_effect(start, ActorEffect::Settle(answer_to(result)));
    lemma_closes_if(
        start.with_effect(ActorEffect::Settle(answer_to(result))),
        closes_after(result),
        rejection_after(result),
    );
}

proof fn lemma_input_keeps_sound(model: OwnerModel, input: OwnerInput)
    requires
        model.is_sound(),
    ensures
        model.after(input).is_sound(),
        model.published.dom().subset_of(model.after(input).published.dom()),
{
    if model.stopped is None {
        let id = |answer: (nat, Result<u128, DurableAgentCreateError>)| answer.0;
        let after = model.after(input);
        match input {
            OwnerInput::Admit(request) => {
                if model.accepting {
                    assert(after.admitted =~= model.answered.map_values(id) + pending(
                        model.current,
                    ) + after.queued);
                }
            },
            OwnerInput::Close => {},
            OwnerInput::EndQueue => {
                lemma_one_effect(model, ActorEffect::Stop { clean: false });
            },
            OwnerInput::ObserveClosing => {
                let error = DurableAgentCreateError::Closing;
                lemma_closing(model, error);
                lemma_answered_ids(model.answered, 0, Err(error), model.queued, error);
                if model.current is None && model.closing {
                    assert(after.admitted =~= after.answered.map_values(id) + pending(None)
                        + after.queued);
                }
            },
            OwnerInput::Receive => {
                if model.current is None && model.queued.len() > 0 {
                    let error = DurableAgentCreateError::Closing;
                    let request = model.queued[0];
                    let rest = model.queued.skip(1);
                    let received = OwnerModel { current: Some(request), queued: rest, ..model };
                    assert(model.queued =~= seq![request] + rest);
                    if model.closing {
                        lemma_received_while_closing(received);
                        let settled = model.answered.push((request, Err(error)));
                        lemma_answered_ids(model.answered, request, Err(error), rest, error);
                        lemma_answered_ids(settled, request, Err(error), rest, error);
                        assert(after.admitted =~= after.answered.map_values(id) + pending(None)
                            + after.queued);
                    } else {
                        lemma_one_effect(received, ActorEffect::Process);
                        assert(after == received);
                        assert(after.admitted =~= after.answered.map_values(id) + pending(
                            Some(request),
                        ) + after.queued);
                    }
                }
            },
            OwnerInput::Finish(result) => {
                if model.current is Some {
                    let error = rejection_after(result);
                    let request = model.current->0;
                    law_end_of_a_request(model, result);
                    let settled = model.answered.push((request, answer_to(result)));
                    lemma_answered_ids(model.answered, request, answer_to(result), model.queued, error);
                    lemma_answered_ids(settled, request, answer_to(result), model.queued, error);
                    assert(after.admitted =~= after.answered.map_values(id) + pending(None)
                        + after.queued);
                }
            },
        }
    }
}

/// An input takes no answer back. Only the end of a request publishes anything, and its answer comes
/// first; all other answers are rejections.
pub proof fn lemma_answers_only_grow(model: OwnerModel, input: OwnerInput)
    ensures
        ({
            let after = model.after(input);
            let count = model.answered.len() as int;
            &&& count <= after.answered.len()
            &&& forall|i: int|
                0 <= i < count ==> #[trigger] after.answered[i] == model.answered[i]
            &&& forall|i: int|
                count < i < after.answered.len() ==> (#[trigger] after.answered[i]).1 is Err
            &&& model.ends_request(input) ==> {
                &&& count < after.answered.len()
                &&& after.answered[count].1 == answer_to(input->Finish_0)
                &&& after.published == installed(
                    model.published,
                    ActorEventView::Processed(input->Finish_0),
                )
            }
            &&& !model.ends_request(input) ==> {
                &&& count < after.answered.len() ==> after.answered[count].1 is Err
                &&& after.published == model.published
            }
        }),
{
    if model.stopped is None {
        match input {
            OwnerInput::EndQueue => {
                lemma_one_effect(model, ActorEffect::Stop { clean: false });
            },
            OwnerInput::ObserveClosing => {
                lemma_closing(model, DurableAgentCreateError::Closing);
            },
            OwnerInput::Receive => {
                if model.current is None && model.queued.len() > 0 {
                    let received = OwnerModel {
                        current: Some(model.queued[0]),
                        queued: model.queued.skip(1),
                        ..model
                    };
                    if model.closing {
                        lemma_received_while_closing(received);
                    } else {
                        lemma_one_effect(received, ActorEffect::Process);
                    }
                }
            },
            OwnerInput::Finish(result) => {
                if model.current is Some {
                    law_end_of_a_request(model, result);
                }
            },
            _ => {},
        }
    }
}

/// Requests are answered in the order in which they were admitted, each exactly once; an owner that
/// ended has left none unanswered; and every Agent that was answered is published.
pub proof fn law_every_request_is_answered_once(start: OwnerModel, inputs: Seq<OwnerInput>)
    requires
        start.is_new(),
    ensures
        owner_after(start, inputs).is_sound(),
    decreases inputs.len(),
{
    if inputs.len() == 0 {
        let id = |answer: (nat, Result<u128, DurableAgentCreateError>)| answer.0;
        assert(start.admitted =~= start.answered.map_values(id) + pending(start.current)
            + start.queued);
    } else {
        law_every_request_is_answered_once(start, inputs.drop_last());
        lemma_input_keeps_sound(owner_after(start, inputs.drop_last()), inputs.last());
    }
}

/// What the owner does about each event: a request is worked on unless the owner is closing; an answer
/// comes first and a close behind it; an owner that is idle closes when it is asked to, and ends
/// uncleanly when its queue does.
pub proof fn law_what_the_owner_does(
    entry: AgentEntryView,
    error: DurableAgentCreateError,
    published: Map<u128, AgentEntryView>,
    other: u128,
)
    ensures
        effects_of(ActorEventView::Received { closing: false }) == seq![ActorEffect::Process],
        effects_of(ActorEventView::Received { closing: true }) == seq![
            ActorEffect::CloseReceiver,
            ActorEffect::Settle(Err(DurableAgentCreateError::Closing)),
            ActorEffect::RejectQueued(DurableAgentCreateError::Closing),
            ActorEffect::Stop { clean: true },
        ],
        effects_of(ActorEventView::ClosingObserved) == seq![
            ActorEffect::CloseReceiver,
            ActorEffect::RejectQueued(DurableAgentCreateError::Closing),
            ActorEffect::Stop { clean: true },
        ],
        effects_of(ActorEventView::QueueEnded) == seq![ActorEffect::Stop { clean: false }],
        effects_of(
            ActorEventView::Processed(
                PublicationResultView::Published { entry, close_required: false },
            ),
        ) == seq![ActorEffect::Settle(Ok(entry.head.agent_id))],
        effects_of(
            ActorEventView::Processed(
                PublicationResultView::Published { entry, close_required: true },
            ),
        ) == seq![
            ActorEffect::Settle(Ok(entry.head.agent_id)),
            ActorEffect::RequestClosing,
            ActorEffect::CloseReceiver,
            ActorEffect::RejectQueued(DurableAgentCreateError::Closing),
            ActorEffect::Stop { clean: true },
        ],
        effects_of(
            ActorEventView::Processed(
                PublicationResultView::Ordinary { error, close_required: false },
            ),
        ) == seq![ActorEffect::Settle(Err(error))],
        effects_of(
            ActorEventView::Processed(
                PublicationResultView::Ordinary { error, close_required: true },
            ),
        ) == seq![
            ActorEffect::Settle(Err(error)),
            ActorEffect::RequestClosing,
            ActorEffect::CloseReceiver,
            ActorEffect::RejectQueued(DurableAgentCreateError::Closing),
            ActorEffect::Stop { clean: true },
        ],
        effects_of(ActorEventView::Processed(PublicationResultView::Poisoned)) == seq![
            ActorEffect::Settle(Err(DurableAgentCreateError::InternalDispatchUnavailable)),
            ActorEffect::RequestClosing,
            ActorEffect::CloseReceiver,
            ActorEffect::RejectQueued(DurableAgentCreateError::InternalDispatchUnavailable),
            ActorEffect::Stop { clean: true },
        ],
        forall|close_required: bool|
            ({
                let after = #[trigger] installed(
                    published,
                    ActorEventView::Processed(
                        PublicationResultView::Published { entry, close_required },
                    ),
                );
                &&& after.contains_pair(entry.head.agent_id, entry)
                &&& other != entry.head.agent_id ==> (after.contains_key(other)
                    <==> published.contains_key(other)) && after[other] == published[other]
            }),
        forall|event: ActorEventView|
            !(event matches ActorEventView::Processed(PublicationResultView::Published { .. }))
                ==> #[trigger] installed(published, event) == published,
{
}

/// What a create request does with its reservation: it goes on with the identity unless the owner is
/// closing; a failure is told as it is, except that an unavailable dispatch poisons the owner.
pub proof fn law_what_follows_a_reservation(
    agent_id: AgentId,
    error: DurableAgentCreateError,
    closing: bool,
)
    ensures
        after_reservation(Ok(agent_id), false) == Ok::<AgentId, PublicationResultView>(agent_id),
        after_reservation(Ok(agent_id), true) == Err::<AgentId, PublicationResultView>(
            PublicationResultView::Ordinary {
                error: DurableAgentCreateError::Closing,
                close_required: false,
            },
        ),
        after_reservation(Err(error), closing) == Err::<AgentId, PublicationResultView>(
            if error == DurableAgentCreateError::InternalDispatchUnavailable {
                PublicationResultView::Poisoned
            } else {
                PublicationResultView::Ordinary { error, close_required: false }
            },
        ),
{
}

/// The first head of an Agent carries its identity, the first generation, its first definition and
/// exactly the metadata that it was asked for, whatever its name and its description.
pub proof fn law_the_first_head_carries_what_was_asked_for(
    agent_id: u128,
    name: Seq<char>,
    description: Option<Seq<char>>,
    created_at: crate::ids::Timestamp,
    execution: Seq<u8>,
)
    ensures
        ({
            let definition = AgentDefinitionView { agent_id, revision: 1, created_at, execution };
            let metadata = AgentMetadataView {
                revision: 1,
                name,
                description,
                updated_at: created_at,
            };
            let head = first_head(agent_id, definition, metadata);
            &&& head == (AgentHeadView {
                agent_id,
                storage_generation: 1,
                previous_storage_generation: None,
                current_definition_revision: 1,
                current_definition_storage_generation: 1,
                metadata,
                status: AgentStatus::Enabled,
                created_at,
            })
            &&& agent_chain::first_agent_generation_is_valid(agent_id, 1, head, definition)
        }),
{
}

/// A request is admitted exactly if it found a place. One that did not is told that the store is closing,
/// unless the queue refused it without that; and so is one that was dropped.
pub proof fn law_a_place_admits_a_request(wait: AdmissionWait)
    ensures
        abandonment(true) == DurableAgentCreateError::Closing,
        abandonment(false) == DurableAgentCreateError::InternalDispatchUnavailable,
        admission_after(wait) == Admission::Admitted <==> wait == AdmissionWait::Place,
        admission_after(wait) == Admission::Rejected(
            DurableAgentCreateError::InternalDispatchUnavailable,
        ) <==> wait == (AdmissionWait::Refused { closing: false }),
        admission_after(wait) == Admission::Rejected(DurableAgentCreateError::Closing) <==> wait
            == AdmissionWait::Closing || wait == (AdmissionWait::Refused { closing: true }),
{
}

} // verus!
