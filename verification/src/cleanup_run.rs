//! Carrying a revalidated cleanup out, one filesystem step at a time.

use crate::cleanup_plan;
use crate::cleanup_plan::{
    revalidate_deferred_generation_cleanup, revalidate_deferred_unpublished_entity_cleanup,
    CleanupPayloadSubset, DeferredGenerationCleanup, DeferredUnpublishedEntityCleanup,
    EntityCleanupObservation, GenerationCleanupObservation,
};
use crate::entity_scan::EntityKind;
use crate::generation::StorageGeneration;
use crate::location::StoreLocation;
use crate::open_error::DurableOpenError;
use crate::physical::{
    cleanup_candidate_is_absent_after_remove_dir_error, Lookup, LookupError, StoreLimits,
};
use vstd::prelude::*;

verus! {

/// Whether the platform can make a directory durable.
#[derive(Clone, Copy, Debug, PartialEq, Eq, Structural)]
pub enum DirectorySync {
    Supported,
    Unsupported,
}

/// One step of a cleanup.
#[derive(Clone, Copy, PartialEq, Eq, Structural)]
pub enum CleanupStep {
    RemoveFile(StoreLocation),
    RemoveDirectory(StoreLocation),
    SyncDirectory(StoreLocation),
}

impl CleanupStep {
    /// What the step removes, if it removes something.
    pub open spec fn removes(self) -> Option<StoreLocation> {
        match self {
            CleanupStep::RemoveFile(location) => Some(location),
            CleanupStep::RemoveDirectory(location) => Some(location),
            CleanupStep::SyncDirectory(_) => None,
        }
    }
}

pub open spec fn optional_step(condition: bool, step: CleanupStep) -> Seq<CleanupStep> {
    if condition {
        seq![step]
    } else {
        seq![]
    }
}

pub open spec fn sync_step(sync: DirectorySync, location: StoreLocation) -> Seq<CleanupStep> {
    optional_step(sync is Supported, CleanupStep::SyncDirectory(location))
}

/// The removal of a trailing generation: its documents, then its directory.
pub open spec fn generation_steps(
    plan: DeferredGenerationCleanup,
    contents: CleanupPayloadSubset,
    sync: DirectorySync,
) -> Seq<CleanupStep> {
    let directory = StoreLocation::Generation(plan.key, plan.generation);
    optional_step(
        contents.has_definition,
        CleanupStep::RemoveFile(StoreLocation::Definition(plan.key, plan.generation)),
    ) + optional_step(
        contents.has_head,
        CleanupStep::RemoveFile(StoreLocation::Head(plan.key, plan.generation)),
    ) + sync_step(sync, directory) + seq![CleanupStep::RemoveDirectory(directory)] + sync_step(
        sync,
        StoreLocation::Generations(plan.key),
    )
}

/// The removal of the files of an invisible entity, the `COMMITTED` marker first.
pub open spec fn entity_file_steps(plan: DeferredUnpublishedEntityCleanup) -> Seq<CleanupStep> {
    let first = StorageGeneration::of(1);
    optional_step(
        plan.has_committed(),
        CleanupStep::RemoveFile(StoreLocation::Committed(plan.key, first)),
    ) + optional_step(
        plan.has_definition(),
        CleanupStep::RemoveFile(StoreLocation::Definition(plan.key, first)),
    ) + optional_step(
        plan.has_head(),
        CleanupStep::RemoveFile(StoreLocation::Head(plan.key, first)),
    ) + optional_step(
        plan.conversation_shape is Some,
        CleanupStep::RemoveFile(StoreLocation::Conversation(plan.key)),
    )
}

/// The removal of the directories of an invisible entity, innermost first, each made durable in the
/// directory above it.
pub open spec fn entity_directory_steps(
    plan: DeferredUnpublishedEntityCleanup,
    sync: DirectorySync,
) -> Seq<CleanupStep> {
    directory_removal(
        plan.spec_generation() is Some,
        StoreLocation::Generation(plan.key, StorageGeneration::of(1)),
        sync,
    ) + directory_removal(
        plan.generations is Some,
        StoreLocation::Generations(plan.key),
        sync,
    ) + directory_removal(true, StoreLocation::Entity(plan.key), sync) + sync_step(
        sync,
        StoreLocation::EntityCollection(plan.key.kind),
    )
}

/// The removal of a whole invisible entity.
pub open spec fn entity_steps(
    plan: DeferredUnpublishedEntityCleanup,
    sync: DirectorySync,
) -> Seq<CleanupStep> {
    entity_file_steps(plan) + entity_directory_steps(plan, sync)
}

/// How far a cleanup has come.
#[derive(Clone, Copy, PartialEq, Eq, Structural)]
pub enum CleanupPhase {
    /// The step at the current position is to be performed.
    Performing,
    /// The directory at the current position could not be removed and is to be looked up.
    Inspecting,
    /// A step failed for good.
    Failed,
}

/// What a cleanup asks for next.
#[derive(Clone, Copy, PartialEq, Eq)]
pub enum CleanupAction {
    Perform(CleanupStep),
    Inspect(StoreLocation),
    Finished(Result<(), DurableOpenError>),
}

/// What came of the last action.
#[derive(Clone, Copy)]
pub enum CleanupEvent {
    Succeeded,
    Failed,
    Seen(Lookup),
}

/// A cleanup that passed its revalidation.
pub struct CleanupRun {
    steps: Vec<CleanupStep>,
    position: usize,
    phase: CleanupPhase,
}

/// The steps of a cleanup, the position in them, and the phase.
pub struct CleanupRunView {
    pub steps: Seq<CleanupStep>,
    pub position: nat,
    pub phase: CleanupPhase,
}

impl CleanupRunView {
    pub open spec fn start(steps: Seq<CleanupStep>) -> Self {
        CleanupRunView { steps, position: 0, phase: CleanupPhase::Performing }
    }

    pub open spec fn action(self) -> CleanupAction {
        if self.phase is Failed {
            CleanupAction::Finished(Err(DurableOpenError::StorageUnavailable))
        } else if self.position >= self.steps.len() {
            CleanupAction::Finished(Ok(()))
        } else {
            match (self.phase, self.steps[self.position as int]) {
                (CleanupPhase::Inspecting, CleanupStep::RemoveDirectory(location)) =>
                    CleanupAction::Inspect(location),
                (_, step) => CleanupAction::Perform(step),
            }
        }
    }

    /// Only a directory removal is reconciled, and only by a confirmed absence.
    pub open spec fn after(self, event: CleanupEvent) -> Self {
        match self.action() {
            CleanupAction::Finished(_) => self,
            CleanupAction::Perform(step) => match event {
                CleanupEvent::Succeeded => CleanupRunView {
                    position: self.position + 1,
                    phase: CleanupPhase::Performing,
                    ..self
                },
                CleanupEvent::Failed if step is RemoveDirectory => CleanupRunView {
                    phase: CleanupPhase::Inspecting,
                    ..self
                },
                _ => CleanupRunView { phase: CleanupPhase::Failed, ..self },
            },
            CleanupAction::Inspect(_) => match event {
                CleanupEvent::Seen(Err(LookupError::NotFound)) => CleanupRunView {
                    position: self.position + 1,
                    phase: CleanupPhase::Performing,
                    ..self
                },
                _ => CleanupRunView { phase: CleanupPhase::Failed, ..self },
            },
        }
    }
}

impl View for CleanupRun {
    type V = CleanupRunView;

    closed spec fn view(&self) -> CleanupRunView {
        CleanupRunView {
            steps: self.steps@,
            position: self.position as nat,
            phase: self.phase,
        }
    }
}

impl CleanupRun {
    #[verifier::type_invariant]
    spec fn is_within_steps(&self) -> bool {
        &&& self.position <= self.steps@.len()
        &&& self.phase is Inspecting ==> self.position < self.steps@.len()
            && self.steps@[self.position as int] is RemoveDirectory
    }

    /// What to do next.
    pub fn action(&self) -> (action: CleanupAction)
        ensures
            action == self@.action(),
    {
        proof {
            use_type_invariant(&*self);
        }
        if matches!(self.phase, CleanupPhase::Failed) {
            return CleanupAction::Finished(Err(DurableOpenError::StorageUnavailable));
        }
        if self.position >= self.steps.len() {
            return CleanupAction::Finished(Ok(()));
        }
        let step: CleanupStep = self.steps[self.position];
        match (self.phase, step) {
            (CleanupPhase::Inspecting, CleanupStep::RemoveDirectory(location)) =>
                CleanupAction::Inspect(location),
            _ => CleanupAction::Perform(step),
        }
    }

    /// Takes in what came of the last action.
    pub fn handle(self, event: CleanupEvent) -> (next: Self)
        ensures
            next@ == self@.after(event),
    {
        proof {
            use_type_invariant(&self);
        }
        let action = self.action();
        let CleanupRun { steps, position, phase } = self;
        let count: usize = steps.len();
        assert(action !is Finished ==> position < count);
        match action {
            CleanupAction::Finished(_) => CleanupRun { steps, position, phase },
            CleanupAction::Perform(step) => match event {
                CleanupEvent::Succeeded => CleanupRun {
                    steps,
                    position: position + 1,
                    phase: CleanupPhase::Performing,
                },
                CleanupEvent::Failed => {
                    let phase = match step {
                        CleanupStep::RemoveDirectory(_) => CleanupPhase::Inspecting,
                        _ => CleanupPhase::Failed,
                    };
                    CleanupRun { steps, position, phase }
                },
                CleanupEvent::Seen(_) => CleanupRun {
                    steps,
                    position,
                    phase: CleanupPhase::Failed,
                },
            },
            CleanupAction::Inspect(_) => {
                let is_absent = match event {
                    CleanupEvent::Seen(lookup) =>
                        cleanup_candidate_is_absent_after_remove_dir_error(lookup),
                    _ => false,
                };
                if is_absent {
                    CleanupRun { steps, position: position + 1, phase: CleanupPhase::Performing }
                } else {
                    CleanupRun { steps, position, phase: CleanupPhase::Failed }
                }
            },
        }
    }
}

fn push_step(steps: &mut Vec<CleanupStep>, condition: bool, step: CleanupStep)
    ensures
        final(steps)@ == old(steps)@ + optional_step(condition, step),
{
    if condition {
        steps.push(step);
    }
    assert(steps@ =~= old(steps)@ + optional_step(condition, step));
}

fn is_supported(sync: DirectorySync) -> (result: bool)
    ensures
        result == (sync is Supported),
{
    matches!(sync, DirectorySync::Supported)
}

pub open spec fn begun(
    revalidation: Result<(), DurableOpenError>,
    steps: Seq<CleanupStep>,
) -> Result<CleanupRunView, DurableOpenError> {
    match revalidation {
        Err(error) => Err(error),
        Ok(()) => Ok(CleanupRunView::start(steps)),
    }
}

pub open spec fn run_result(result: Result<CleanupRun, DurableOpenError>) -> Result<
    CleanupRunView,
    DurableOpenError,
> {
    match result {
        Ok(run) => Ok(run@),
        Err(error) => Err(error),
    }
}

/// Revalidates the removal of a trailing generation and starts it.
pub fn finalize_deferred_generation_cleanup(
    plan: &DeferredGenerationCleanup,
    observation: &GenerationCleanupObservation,
    limits: StoreLimits,
    sync: DirectorySync,
) -> (result: Result<CleanupRun, DurableOpenError>)
    ensures
        run_result(result) == match cleanup_plan::generation_revalidation(
            *plan,
            *observation,
            limits,
        ) {
            Err(error) => Err(error),
            Ok(contents) => Ok(CleanupRunView::start(generation_steps(*plan, contents, sync))),
        },
{
    let contents = match revalidate_deferred_generation_cleanup(plan, observation, limits) {
        Err(error) => return Err(error),
        Ok(contents) => contents,
    };
    let supported = is_supported(sync);
    let directory = StoreLocation::Generation(plan.key, plan.generation);
    let mut steps: Vec<CleanupStep> = Vec::new();
    push_step(
        &mut steps,
        contents.has_definition,
        CleanupStep::RemoveFile(StoreLocation::Definition(plan.key, plan.generation)),
    );
    push_step(
        &mut steps,
        contents.has_head,
        CleanupStep::RemoveFile(StoreLocation::Head(plan.key, plan.generation)),
    );
    push_step(&mut steps, supported, CleanupStep::SyncDirectory(directory));
    push_step(&mut steps, true, CleanupStep::RemoveDirectory(directory));
    push_step(
        &mut steps,
        supported,
        CleanupStep::SyncDirectory(StoreLocation::Generations(plan.key)),
    );
    assert(steps@ =~= generation_steps(*plan, contents, sync));
    Ok(CleanupRun { steps, position: 0, phase: CleanupPhase::Performing })
}

fn remove_entity_files(plan: &DeferredUnpublishedEntityCleanup) -> (steps: Vec<CleanupStep>)
    ensures
        steps@ == entity_file_steps(*plan),
{
    let first = StorageGeneration::first();
    let (has_committed, has_head, has_definition) = match plan.generation() {
        Some(files) => (
            files.committed_shape.is_some(),
            files.head_shape.is_some(),
            files.definition_shape.is_some(),
        ),
        None => (false, false, false),
    };
    let mut steps: Vec<CleanupStep> = Vec::new();
    push_step(
        &mut steps,
        has_committed,
        CleanupStep::RemoveFile(StoreLocation::Committed(plan.key, first)),
    );
    push_step(
        &mut steps,
        has_definition,
        CleanupStep::RemoveFile(StoreLocation::Definition(plan.key, first)),
    );
    push_step(
        &mut steps,
        has_head,
        CleanupStep::RemoveFile(StoreLocation::Head(plan.key, first)),
    );
    push_step(
        &mut steps,
        plan.conversation_shape.is_some(),
        CleanupStep::RemoveFile(StoreLocation::Conversation(plan.key)),
    );
    assert(steps@ =~= entity_file_steps(*plan));
    steps
}

pub open spec fn directory_removal(
    present: bool,
    directory: StoreLocation,
    sync: DirectorySync,
) -> Seq<CleanupStep> {
    if present {
        sync_step(sync, directory) + seq![CleanupStep::RemoveDirectory(directory)]
    } else {
        seq![]
    }
}

fn remove_directory(
    steps: &mut Vec<CleanupStep>,
    present: bool,
    directory: StoreLocation,
    sync: DirectorySync,
)
    ensures
        final(steps)@ == old(steps)@ + directory_removal(present, directory, sync),
{
    if present {
        push_step(steps, is_supported(sync), CleanupStep::SyncDirectory(directory));
        steps.push(CleanupStep::RemoveDirectory(directory));
    }
    assert(steps@ =~= old(steps)@ + directory_removal(present, directory, sync));
}

/// The steps that remove an invisible entity, whose shape was just revalidated.
fn execute_deferred_unpublished_entity_cleanup(
    plan: &DeferredUnpublishedEntityCleanup,
    sync: DirectorySync,
) -> (run: CleanupRun)
    ensures
        run@ == CleanupRunView::start(entity_steps(*plan, sync)),
{
    let mut steps = remove_entity_files(plan);
    let generation = StoreLocation::Generation(plan.key, StorageGeneration::first());
    let mut directories: Vec<CleanupStep> = Vec::new();
    remove_directory(&mut directories, plan.generation().is_some(), generation, sync);
    remove_directory(
        &mut directories,
        plan.generations.is_some(),
        StoreLocation::Generations(plan.key),
        sync,
    );
    remove_directory(&mut directories, true, StoreLocation::Entity(plan.key), sync);
    push_step(
        &mut directories,
        is_supported(sync),
        CleanupStep::SyncDirectory(StoreLocation::EntityCollection(plan.key.kind)),
    );
    assert(directories@ =~= entity_directory_steps(*plan, sync));
    steps.append(&mut directories);
    CleanupRun { steps, position: 0, phase: CleanupPhase::Performing }
}

/// Revalidates the removal of an invisible entity and starts it.
pub fn finalize_deferred_unpublished_entity_cleanup(
    plan: &DeferredUnpublishedEntityCleanup,
    observation: &EntityCleanupObservation,
    limits: StoreLimits,
    sync: DirectorySync,
) -> (result: Result<CleanupRun, DurableOpenError>)
    ensures
        run_result(result) == begun(
            cleanup_plan::entity_revalidation(*plan, *observation, limits),
            entity_steps(*plan, sync),
        ),
{
    match revalidate_deferred_unpublished_entity_cleanup(plan, observation, limits) {
        Err(error) => Err(error),
        Ok(()) => Ok(execute_deferred_unpublished_entity_cleanup(plan, sync)),
    }
}

/// The state of a run after a sequence of events.
pub open spec fn run_after(start: CleanupRunView, events: Seq<CleanupEvent>) -> CleanupRunView
    decreases events.len(),
{
    if events.len() == 0 {
        start
    } else {
        run_after(start, events.drop_last()).after(events.last())
    }
}

/// The steps that a run has asked to perform over a sequence of events.
pub open spec fn performed(start: CleanupRunView, events: Seq<CleanupEvent>) -> Seq<CleanupStep>
    decreases events.len(),
{
    if events.len() == 0 {
        seq![]
    } else {
        let before = performed(start, events.drop_last());
        match run_after(start, events.drop_last()).action() {
            CleanupAction::Perform(step) => before.push(step),
            _ => before,
        }
    }
}

/// Whatever the filesystem answers, a cleanup performs the first steps of its plan, in order and each
/// once; it succeeds only after all of them, and never goes on after a failure.
pub proof fn law_cleanup_performs_a_prefix(steps: Seq<CleanupStep>, events: Seq<CleanupEvent>)
    ensures
        ({
            let state = run_after(CleanupRunView::start(steps), events);
            let done = performed(CleanupRunView::start(steps), events);
            &&& state.steps == steps
            &&& state.position <= steps.len()
            &&& state.phase is Performing ==> done == steps.take(state.position as int)
            &&& state.phase !is Performing ==> state.position < steps.len() && done == steps.take(
                state.position as int + 1,
            )
            &&& state.phase is Inspecting ==> steps[state.position as int] is RemoveDirectory
            &&& state.action() == CleanupAction::Finished(Ok(())) <==> (done == steps
                && state.position == steps.len())
        }),
    decreases events.len(),
{
    let start = CleanupRunView::start(steps);
    if events.len() == 0 {
        assert(steps.take(0) =~= seq![]);
        assert(steps.take(steps.len() as int) =~= steps);
    } else {
        let front = events.drop_last();
        law_cleanup_performs_a_prefix(steps, front);
        let before = run_after(start, front);
        let done = performed(start, front);
        let state = run_after(start, events);
        if before.position < steps.len() {
            let at = before.position as int;
            assert(steps.take(at).push(steps[at]) =~= steps.take(at + 1));
        }
        assert(steps.take(steps.len() as int) =~= steps);
    }
}

proof fn lemma_entity_step(plan: DeferredUnpublishedEntityCleanup, sync: DirectorySync, i: int)
    requires
        0 <= i < entity_steps(plan, sync).len(),
    ensures
        ({
            let step = entity_steps(plan, sync)[i];
            let first = StorageGeneration::of(1);
            ||| step == CleanupStep::RemoveFile(StoreLocation::Committed(plan.key, first)) && i == 0
                && plan.has_committed()
            ||| step == CleanupStep::RemoveFile(StoreLocation::Definition(plan.key, first))
            ||| step == CleanupStep::RemoveFile(StoreLocation::Head(plan.key, first))
            ||| step == CleanupStep::RemoveFile(StoreLocation::Conversation(plan.key))
            ||| step == CleanupStep::RemoveDirectory(StoreLocation::Generation(plan.key, first))
            ||| step == CleanupStep::RemoveDirectory(StoreLocation::Generations(plan.key))
            ||| step == CleanupStep::RemoveDirectory(StoreLocation::Entity(plan.key))
            ||| step is SyncDirectory
        }),
{
}

/// Removing an invisible entity touches only that entity: never its reservation, never a `PUBLISHED`
/// marker, never another entity. The `COMMITTED` marker goes before everything else.
pub proof fn law_entity_removal_is_confined(
    plan: DeferredUnpublishedEntityCleanup,
    sync: DirectorySync,
)
    ensures
        plan.has_committed() ==> entity_steps(plan, sync)[0] == CleanupStep::RemoveFile(
            StoreLocation::Committed(plan.key, StorageGeneration::of(1)),
        ),
        forall|i: int|
            0 <= i < entity_steps(plan, sync).len() ==> match (
            #[trigger] entity_steps(plan, sync)[i]).removes() {
                None => true,
                Some(StoreLocation::Committed(key, _)) => key == plan.key && i == 0,
                Some(StoreLocation::Definition(key, _)) => key == plan.key,
                Some(StoreLocation::Head(key, _)) => key == plan.key,
                Some(StoreLocation::Conversation(key)) => key == plan.key,
                Some(StoreLocation::Generation(key, _)) => key == plan.key,
                Some(StoreLocation::Generations(key)) => key == plan.key,
                Some(StoreLocation::Entity(key)) => key == plan.key,
                Some(_) => false,
            },
{
    assert forall|i: int| 0 <= i < entity_steps(plan, sync).len() implies match (
    #[trigger] entity_steps(plan, sync)[i]).removes() {
        None => true,
        Some(StoreLocation::Committed(key, _)) => key == plan.key && i == 0,
        Some(StoreLocation::Definition(key, _)) => key == plan.key,
        Some(StoreLocation::Head(key, _)) => key == plan.key,
        Some(StoreLocation::Conversation(key)) => key == plan.key,
        Some(StoreLocation::Generation(key, _)) => key == plan.key,
        Some(StoreLocation::Generations(key)) => key == plan.key,
        Some(StoreLocation::Entity(key)) => key == plan.key,
        Some(_) => false,
    } by {
        lemma_entity_step(plan, sync, i);
    }
}

/// Removing a trailing generation removes its documents and its directory, and nothing else.
pub proof fn law_generation_removal_is_confined(
    plan: DeferredGenerationCleanup,
    contents: CleanupPayloadSubset,
    sync: DirectorySync,
)
    ensures
        forall|i: int|
            0 <= i < generation_steps(plan, contents, sync).len() ==> match (
            #[trigger] generation_steps(plan, contents, sync)[i]).removes() {
                None => true,
                Some(location) => {
                    ||| location == StoreLocation::Definition(plan.key, plan.generation)
                    ||| location == StoreLocation::Head(plan.key, plan.generation)
                    ||| location == StoreLocation::Generation(plan.key, plan.generation)
                },
            },
{
}

/// Where directories can be made durable, the step after each directory removal does so in the
/// directory above.
pub proof fn law_each_removed_directory_is_synced_above(
    plan: DeferredUnpublishedEntityCleanup,
    trailing: DeferredGenerationCleanup,
    contents: CleanupPayloadSubset,
)
    ensures
        forall|i: int|
            0 <= i < entity_steps(plan, DirectorySync::Supported).len() ==> match #[trigger] entity_steps(
                plan,
                DirectorySync::Supported,
            )[i] {
                CleanupStep::RemoveDirectory(directory) => i + 1 < entity_steps(
                    plan,
                    DirectorySync::Supported,
                ).len() && is_sync_above(
                    entity_steps(plan, DirectorySync::Supported)[i + 1],
                    directory,
                ),
                _ => true,
            },
        forall|i: int|
            0 <= i < generation_steps(trailing, contents, DirectorySync::Supported).len()
                ==> match #[trigger] generation_steps(
                trailing,
                contents,
                DirectorySync::Supported,
            )[i] {
                CleanupStep::RemoveDirectory(directory) => i + 1 < generation_steps(
                    trailing,
                    contents,
                    DirectorySync::Supported,
                ).len() && is_sync_above(
                    generation_steps(trailing, contents, DirectorySync::Supported)[i + 1],
                    directory,
                ),
                _ => true,
            },
{
    let sync = DirectorySync::Supported;
    let files = entity_file_steps(plan);
    let directories = entity_directory_steps(plan, sync);
    let steps = entity_steps(plan, sync);
    assert(files.len() <= 4);
    assert forall|i: int| 0 <= i < steps.len() implies match #[trigger] steps[i] {
        CleanupStep::RemoveDirectory(directory) => i + 1 < steps.len() && is_sync_above(
            steps[i + 1],
            directory,
        ),
        _ => true,
    } by {
        if i < files.len() {
            assert(steps[i] == files[i]);
        } else {
            assert(steps[i] == directories[i - files.len()]);
            if i + 1 < steps.len() {
                assert(steps[i + 1] == directories[i + 1 - files.len()]);
            }
        }
    }
}

pub open spec fn is_sync_above(step: CleanupStep, directory: StoreLocation) -> bool {
    step == CleanupStep::SyncDirectory(directory.spec_parent())
}

/// Which parts of an invisible entity are present.
pub struct StagedShape {
    pub committed: bool,
    pub definition: bool,
    pub head: bool,
    pub conversation: bool,
    pub generation: bool,
    pub generations: bool,
    pub entity: bool,
}

impl StagedShape {
    /// The shapes that a scan accepts as staging.
    pub open spec fn is_scannable(self, kind: EntityKind) -> bool {
        &&& self.committed ==> self.head && self.definition && (kind is Session
            ==> self.conversation)
        &&& self.committed || self.head || self.definition ==> self.generation
        &&& self.conversation ==> kind is Session && self.generation
        &&& self.generation ==> self.generations
        &&& self.generations ==> self.entity
    }

    pub open spec fn without(self, location: StoreLocation) -> Self {
        match location {
            StoreLocation::Committed(_, _) => StagedShape { committed: false, ..self },
            StoreLocation::Definition(_, _) => StagedShape { definition: false, ..self },
            StoreLocation::Head(_, _) => StagedShape { head: false, ..self },
            StoreLocation::Conversation(_) => StagedShape { conversation: false, ..self },
            StoreLocation::Generation(_, _) => StagedShape { generation: false, ..self },
            StoreLocation::Generations(_) => StagedShape { generations: false, ..self },
            StoreLocation::Entity(_) => StagedShape { entity: false, ..self },
            _ => self,
        }
    }
}

pub open spec fn planned_shape(plan: DeferredUnpublishedEntityCleanup) -> StagedShape {
    StagedShape {
        committed: plan.has_committed(),
        definition: plan.has_definition(),
        head: plan.has_head(),
        conversation: plan.conversation_shape is Some,
        generation: plan.spec_generation() is Some,
        generations: plan.generations is Some,
        entity: true,
    }
}

/// What is left of a shape after some steps took effect.
pub open spec fn shape_after(shape: StagedShape, steps: Seq<CleanupStep>) -> StagedShape
    decreases steps.len(),
{
    if steps.len() == 0 {
        shape
    } else {
        let before = shape_after(shape, steps.drop_last());
        match steps.last().removes() {
            Some(location) => before.without(location),
            None => before,
        }
    }
}

/// Whether a shape is scannable however many of some steps took effect.
spec fn stays_scannable(shape: StagedShape, steps: Seq<CleanupStep>, kind: EntityKind) -> bool {
    forall|n: int|
        0 <= n <= steps.len() ==> (#[trigger] shape_after(shape, steps.take(n))).is_scannable(kind)
}

proof fn lemma_shape_in_turn(
    shape: StagedShape,
    first: Seq<CleanupStep>,
    second: Seq<CleanupStep>,
)
    ensures
        shape_after(shape, first + second) == shape_after(shape_after(shape, first), second),
    decreases second.len(),
{
    if second.len() == 0 {
        assert(first + second =~= first);
    } else {
        assert((first + second).drop_last() =~= first + second.drop_last());
        lemma_shape_in_turn(shape, first, second.drop_last());
    }
}

proof fn lemma_scannable_in_turn(
    shape: StagedShape,
    first: Seq<CleanupStep>,
    second: Seq<CleanupStep>,
    kind: EntityKind,
)
    requires
        stays_scannable(shape, first, kind),
        stays_scannable(shape_after(shape, first), second, kind),
    ensures
        stays_scannable(shape, first + second, kind),
        shape_after(shape, first + second) == shape_after(shape_after(shape, first), second),
{
    let both = first + second;
    lemma_shape_in_turn(shape, first, second);
    assert forall|n: int| 0 <= n <= both.len() implies (#[trigger] shape_after(
        shape,
        both.take(n),
    )).is_scannable(kind) by {
        if n <= first.len() {
            assert(both.take(n) =~= first.take(n));
        } else {
            let rest = second.take(n - first.len());
            assert(both.take(n) =~= first + rest);
            lemma_shape_in_turn(shape, first, rest);
        }
    }
}

proof fn lemma_optional_step(
    shape: StagedShape,
    condition: bool,
    step: CleanupStep,
    kind: EntityKind,
)
    requires
        shape.is_scannable(kind),
        condition ==> shape_after(shape, seq![step]).is_scannable(kind),
    ensures
        stays_scannable(shape, optional_step(condition, step), kind),
{
    let steps = optional_step(condition, step);
    assert forall|n: int| 0 <= n <= steps.len() implies (#[trigger] shape_after(
        shape,
        steps.take(n),
    )).is_scannable(kind) by {
        if n == 0 {
            assert(steps.take(n) =~= seq![]);
        } else {
            assert(steps.take(n) =~= seq![step]);
        }
    }
}

/// What one step leaves.
proof fn lemma_one_step(shape: StagedShape, step: CleanupStep)
    ensures
        shape_after(shape, seq![step]) == match step.removes() {
            Some(location) => shape.without(location),
            None => shape,
        },
{
    assert(seq![step].drop_last() =~= seq![]);
    assert(shape_after(shape, seq![step].drop_last()) == shape);
}

/// The removal of one file, if it is there.
proof fn lemma_file_removal(
    shape: StagedShape,
    present: bool,
    location: StoreLocation,
    kind: EntityKind,
)
    requires
        shape.is_scannable(kind),
        shape.without(location).is_scannable(kind),
        !present ==> shape.without(location) == shape,
    ensures
        ({
            let steps = optional_step(present, CleanupStep::RemoveFile(location));
            &&& stays_scannable(shape, steps, kind)
            &&& shape_after(shape, steps) == shape.without(location)
        }),
{
    let step = CleanupStep::RemoveFile(location);
    lemma_one_step(shape, step);
    lemma_optional_step(shape, present, step, kind);
}

/// A sync changes no shape.
proof fn lemma_sync(
    shape: StagedShape,
    sync: DirectorySync,
    location: StoreLocation,
    kind: EntityKind,
)
    requires
        shape.is_scannable(kind),
    ensures
        stays_scannable(shape, sync_step(sync, location), kind),
        shape_after(shape, sync_step(sync, location)) == shape,
{
    let step = CleanupStep::SyncDirectory(location);
    lemma_one_step(shape, step);
    lemma_optional_step(shape, sync is Supported, step, kind);
}

/// The removal of one directory, if it is there.
proof fn lemma_directory_removal(
    shape: StagedShape,
    present: bool,
    location: StoreLocation,
    sync: DirectorySync,
    kind: EntityKind,
)
    requires
        shape.is_scannable(kind),
        shape.without(location).is_scannable(kind),
        !present ==> shape.without(location) == shape,
    ensures
        ({
            let steps = directory_removal(present, location, sync);
            &&& stays_scannable(shape, steps, kind)
            &&& shape_after(shape, steps) == shape.without(location)
        }),
{
    let step = CleanupStep::RemoveDirectory(location);
    lemma_one_step(shape, step);
    if present {
        lemma_sync(shape, sync, location, kind);
        lemma_optional_step(shape, true, step, kind);
        lemma_scannable_in_turn(shape, sync_step(sync, location), seq![step], kind);
    } else {
        lemma_optional_step(shape, false, step, kind);
    }
}

proof fn lemma_files_removed(plan: DeferredUnpublishedEntityCleanup)
    requires
        planned_shape(plan).is_scannable(plan.key.kind),
    ensures
        stays_scannable(planned_shape(plan), entity_file_steps(plan), plan.key.kind),
        shape_after(planned_shape(plan), entity_file_steps(plan)) == (StagedShape {
            committed: false,
            definition: false,
            head: false,
            conversation: false,
            ..planned_shape(plan)
        }),
{
    let kind = plan.key.kind;
    let first = StorageGeneration::of(1);
    let committed = StoreLocation::Committed(plan.key, first);
    let definition = StoreLocation::Definition(plan.key, first);
    let head = StoreLocation::Head(plan.key, first);
    let conversation = StoreLocation::Conversation(plan.key);
    let one = optional_step(plan.has_committed(), CleanupStep::RemoveFile(committed));
    let two = optional_step(plan.has_definition(), CleanupStep::RemoveFile(definition));
    let three = optional_step(plan.has_head(), CleanupStep::RemoveFile(head));
    let four = optional_step(
        plan.conversation_shape is Some,
        CleanupStep::RemoveFile(conversation),
    );
    let start = planned_shape(plan);
    let uncommitted = start.without(committed);
    let undefined = uncommitted.without(definition);
    let headless = undefined.without(head);
    lemma_file_removal(start, plan.has_committed(), committed, kind);
    lemma_file_removal(uncommitted, plan.has_definition(), definition, kind);
    lemma_file_removal(undefined, plan.has_head(), head, kind);
    lemma_file_removal(headless, plan.conversation_shape is Some, conversation, kind);
    lemma_scannable_in_turn(start, one, two, kind);
    lemma_scannable_in_turn(start, one + two, three, kind);
    lemma_scannable_in_turn(start, one + two + three, four, kind);
}

proof fn lemma_directories_removed(
    plan: DeferredUnpublishedEntityCleanup,
    sync: DirectorySync,
    start: StagedShape,
)
    requires
        start.is_scannable(plan.key.kind),
        start == (StagedShape {
            committed: false,
            definition: false,
            head: false,
            conversation: false,
            ..planned_shape(plan)
        }),
    ensures
        stays_scannable(start, entity_directory_steps(plan, sync), plan.key.kind),
        !shape_after(start, entity_directory_steps(plan, sync)).entity,
{
    let kind = plan.key.kind;
    let generation = StoreLocation::Generation(plan.key, StorageGeneration::of(1));
    let generations = StoreLocation::Generations(plan.key);
    let entity = StoreLocation::Entity(plan.key);
    let one = directory_removal(plan.spec_generation() is Some, generation, sync);
    let two = directory_removal(plan.generations is Some, generations, sync);
    let three = directory_removal(true, entity, sync);
    let four = sync_step(sync, StoreLocation::EntityCollection(kind));
    let outer = start.without(generation);
    let bare = outer.without(generations);
    let gone = bare.without(entity);
    lemma_directory_removal(start, plan.spec_generation() is Some, generation, sync, kind);
    lemma_directory_removal(outer, plan.generations is Some, generations, sync, kind);
    lemma_directory_removal(bare, true, entity, sync, kind);
    lemma_sync(gone, sync, StoreLocation::EntityCollection(kind), kind);
    lemma_scannable_in_turn(start, one, two, kind);
    lemma_scannable_in_turn(start, one + two, three, kind);
    lemma_scannable_in_turn(start, one + two + three, four, kind);
}

/// However far the removal of an invisible entity came before it broke off, what is left is again a
/// shape that a scan accepts as staging, so that the next open can take it up; a removal that came to
/// its end leaves nothing.
pub proof fn law_interrupted_removal_stays_recoverable(
    plan: DeferredUnpublishedEntityCleanup,
    sync: DirectorySync,
    n: int,
)
    requires
        0 <= n <= entity_steps(plan, sync).len(),
        planned_shape(plan).is_scannable(plan.key.kind),
    ensures
        ({
            let left = shape_after(planned_shape(plan), entity_steps(plan, sync).take(n));
            &&& left.is_scannable(plan.key.kind)
            &&& n == entity_steps(plan, sync).len() ==> !left.entity
        }),
{
    let start = planned_shape(plan);
    let files = entity_file_steps(plan);
    let directories = entity_directory_steps(plan, sync);
    let steps = entity_steps(plan, sync);
    lemma_files_removed(plan);
    lemma_directories_removed(plan, sync, shape_after(start, files));
    lemma_scannable_in_turn(start, files, directories, plan.key.kind);
    assert(steps.take(steps.len() as int) =~= steps);
}

/// A removal of an entity removes each part that was planned and no other one, and its own directory
/// always; with durable directories each directory is synced before it goes, and the collection last.
pub proof fn law_every_planned_part_is_removed(
    plan: DeferredUnpublishedEntityCleanup,
    sync: DirectorySync,
)
    ensures
        ({
            let steps = entity_steps(plan, sync);
            let first = StorageGeneration::of(1);
            let files = plan.generations is Some && plan.generations->0.generation is Some;
            let staged = plan.generations->0.generation->0;
            let supported = sync == DirectorySync::Supported;
            &&& steps.contains(CleanupStep::RemoveFile(StoreLocation::Committed(plan.key, first)))
                <==> files && staged.committed_shape is Some
            &&& steps.contains(CleanupStep::RemoveFile(StoreLocation::Definition(plan.key, first)))
                <==> files && staged.definition_shape is Some
            &&& steps.contains(CleanupStep::RemoveFile(StoreLocation::Head(plan.key, first)))
                <==> files && staged.head_shape is Some
            &&& steps.contains(CleanupStep::RemoveFile(StoreLocation::Conversation(plan.key)))
                <==> plan.conversation_shape is Some
            &&& steps.contains(
                CleanupStep::RemoveDirectory(StoreLocation::Generation(plan.key, first)),
            ) <==> files
            &&& steps.contains(CleanupStep::RemoveDirectory(StoreLocation::Generations(plan.key)))
                <==> plan.generations is Some
            &&& steps.contains(CleanupStep::RemoveDirectory(StoreLocation::Entity(plan.key)))
            &&& supported ==> steps.last() == CleanupStep::SyncDirectory(
                StoreLocation::EntityCollection(plan.key.kind),
            )
            &&& supported ==> steps.contains(
                CleanupStep::SyncDirectory(StoreLocation::Entity(plan.key)),
            )
            &&& !supported ==> forall|i: int|
                0 <= i < steps.len() ==> !(#[trigger] steps[i] is SyncDirectory)
        }),
{
    let steps = entity_steps(plan, sync);
    let files = entity_file_steps(plan);
    let directories = entity_directory_steps(plan, sync);
    assert forall|step: CleanupStep| #[trigger] steps.contains(step) <==> files.contains(step)
        || directories.contains(step) by {
        if files.contains(step) {
            let k = choose|k: int| 0 <= k < files.len() && files[k] == step;
            assert(steps[k] == step);
        }
        if directories.contains(step) {
            let k = choose|k: int| 0 <= k < directories.len() && directories[k] == step;
            assert(steps[files.len() + k] == step);
        }
        if steps.contains(step) {
            let k = choose|k: int| 0 <= k < steps.len() && steps[k] == step;
            if k < files.len() {
                assert(files[k] == step);
            } else {
                assert(directories[k - files.len()] == step);
            }
        }
    }
    lemma_file_steps(plan);
    lemma_directory_steps(plan, sync);
}

proof fn lemma_one_optional(condition: bool, step: CleanupStep, x: CleanupStep)
    ensures
        optional_step(condition, step).contains(x) <==> condition && x == step,
{
    if condition {
        assert(optional_step(condition, step)[0] == step);
    }
}

proof fn lemma_sum_contains(a: Seq<CleanupStep>, b: Seq<CleanupStep>, x: CleanupStep)
    ensures
        (a + b).contains(x) <==> a.contains(x) || b.contains(x),
{
    if a.contains(x) {
        let k = choose|k: int| 0 <= k < a.len() && a[k] == x;
        assert((a + b)[k] == x);
    }
    if b.contains(x) {
        let k = choose|k: int| 0 <= k < b.len() && b[k] == x;
        assert((a + b)[a.len() + k] == x);
    }
}

proof fn lemma_file_steps(plan: DeferredUnpublishedEntityCleanup)
    ensures
        forall|x: CleanupStep| #[trigger]
            entity_file_steps(plan).contains(x) <==> {
                let first = StorageGeneration::of(1);
                ||| plan.has_committed() && x == CleanupStep::RemoveFile(
                    StoreLocation::Committed(plan.key, first),
                )
                ||| plan.has_definition() && x == CleanupStep::RemoveFile(
                    StoreLocation::Definition(plan.key, first),
                )
                ||| plan.has_head() && x == CleanupStep::RemoveFile(
                    StoreLocation::Head(plan.key, first),
                )
                ||| plan.conversation_shape is Some && x == CleanupStep::RemoveFile(
                    StoreLocation::Conversation(plan.key),
                )
            },
{
    let first = StorageGeneration::of(1);
    let committed = CleanupStep::RemoveFile(StoreLocation::Committed(plan.key, first));
    let definition = CleanupStep::RemoveFile(StoreLocation::Definition(plan.key, first));
    let head = CleanupStep::RemoveFile(StoreLocation::Head(plan.key, first));
    let conversation = CleanupStep::RemoveFile(StoreLocation::Conversation(plan.key));
    let one = optional_step(plan.has_committed(), committed);
    let two = optional_step(plan.has_definition(), definition);
    let three = optional_step(plan.has_head(), head);
    let four = optional_step(plan.conversation_shape is Some, conversation);
    assert forall|x: CleanupStep| #[trigger] entity_file_steps(plan).contains(x) <==> {
        ||| plan.has_committed() && x == committed
        ||| plan.has_definition() && x == definition
        ||| plan.has_head() && x == head
        ||| plan.conversation_shape is Some && x == conversation
    } by {
        lemma_one_optional(plan.has_committed(), committed, x);
        lemma_one_optional(plan.has_definition(), definition, x);
        lemma_one_optional(plan.has_head(), head, x);
        lemma_one_optional(plan.conversation_shape is Some, conversation, x);
        lemma_sum_contains(one, two, x);
        lemma_sum_contains(one + two, three, x);
        lemma_sum_contains(one + two + three, four, x);
    }
}

proof fn lemma_one_directory(
    present: bool,
    directory: StoreLocation,
    sync: DirectorySync,
    x: CleanupStep,
)
    ensures
        directory_removal(present, directory, sync).contains(x) <==> present && (x
            == CleanupStep::RemoveDirectory(directory) || (sync is Supported && x
            == CleanupStep::SyncDirectory(directory))),
{
    if present {
        let remove = CleanupStep::RemoveDirectory(directory);
        assert(seq![remove][0] == remove);
        lemma_sum_contains(sync_step(sync, directory), seq![remove], x);
        lemma_one_optional(sync is Supported, CleanupStep::SyncDirectory(directory), x);
    }
}

proof fn lemma_directory_steps(plan: DeferredUnpublishedEntityCleanup, sync: DirectorySync)
    ensures
        forall|x: CleanupStep| #[trigger]
            entity_directory_steps(plan, sync).contains(x) <==> {
                let generation = StoreLocation::Generation(plan.key, StorageGeneration::of(1));
                let generations = StoreLocation::Generations(plan.key);
                let entity = StoreLocation::Entity(plan.key);
                let supported = sync is Supported;
                ||| plan.spec_generation() is Some && (x == CleanupStep::RemoveDirectory(generation)
                    || (supported && x == CleanupStep::SyncDirectory(generation)))
                ||| plan.generations is Some && (x == CleanupStep::RemoveDirectory(generations) || (
                supported && x == CleanupStep::SyncDirectory(generations)))
                ||| x == CleanupStep::RemoveDirectory(entity)
                ||| supported && x == CleanupStep::SyncDirectory(entity)
                ||| supported && x == CleanupStep::SyncDirectory(
                    StoreLocation::EntityCollection(plan.key.kind),
                )
            },
{
    let generation = StoreLocation::Generation(plan.key, StorageGeneration::of(1));
    let generations = StoreLocation::Generations(plan.key);
    let entity = StoreLocation::Entity(plan.key);
    let collection = StoreLocation::EntityCollection(plan.key.kind);
    let one = directory_removal(plan.spec_generation() is Some, generation, sync);
    let two = directory_removal(plan.generations is Some, generations, sync);
    let three = directory_removal(true, entity, sync);
    let four = sync_step(sync, collection);
    assert forall|x: CleanupStep| #[trigger] entity_directory_steps(plan, sync).contains(x) <==> {
        ||| plan.spec_generation() is Some && (x == CleanupStep::RemoveDirectory(generation) || (
        sync is Supported && x == CleanupStep::SyncDirectory(generation)))
        ||| plan.generations is Some && (x == CleanupStep::RemoveDirectory(generations) || (sync
            is Supported && x == CleanupStep::SyncDirectory(generations)))
        ||| x == CleanupStep::RemoveDirectory(entity)
        ||| sync is Supported && x == CleanupStep::SyncDirectory(entity)
        ||| sync is Supported && x == CleanupStep::SyncDirectory(collection)
    } by {
        lemma_one_directory(plan.spec_generation() is Some, generation, sync, x);
        lemma_one_directory(plan.generations is Some, generations, sync, x);
        lemma_one_directory(true, entity, sync, x);
        lemma_one_optional(sync is Supported, CleanupStep::SyncDirectory(collection), x);
        lemma_sum_contains(one, two, x);
        lemma_sum_contains(one + two, three, x);
        lemma_sum_contains(one + two + three, four, x);
    }
}

/// The removal of a trailing generation, step by step: its definition and its head where they are there,
/// then its directory, synced before and made durable above where directories can be.
pub proof fn law_the_steps_of_a_trailing_removal(
    plan: DeferredGenerationCleanup,
    contents: CleanupPayloadSubset,
)
    ensures
        ({
            let generation = StoreLocation::Generation(plan.key, plan.generation);
            let definition = CleanupStep::RemoveFile(
                StoreLocation::Definition(plan.key, plan.generation),
            );
            let head = CleanupStep::RemoveFile(StoreLocation::Head(plan.key, plan.generation));
            let removed = CleanupStep::RemoveDirectory(generation);
            let above = CleanupStep::SyncDirectory(StoreLocation::Generations(plan.key));
            let documents = if contents.has_definition && contents.has_head {
                seq![definition, head]
            } else if contents.has_definition {
                seq![definition]
            } else if contents.has_head {
                seq![head]
            } else {
                seq![]
            };
            &&& generation_steps(plan, contents, DirectorySync::Supported) == documents + seq![
                CleanupStep::SyncDirectory(generation),
                removed,
                above,
            ]
            &&& generation_steps(plan, contents, DirectorySync::Unsupported) == documents
                + seq![removed]
        }),
{
}

} // verus!
