//! The immutable capability snapshot of one agent-loop request.

use std::cmp::Ordering;
use vstd::prelude::*;

verus! {

/// Monotonic revision of the active `ExecutionConfig` inside a loop.
///
/// The initial config is revision 0; every accepted update yields the next revision. A request and
/// the tool batch it produces share exactly one revision.
#[derive(Clone, Copy, Debug, PartialEq, Eq, Ord, Structural)]
pub struct ConfigRevision {
    value: u64,
}

impl View for ConfigRevision {
    type V = u64;

    closed spec fn view(&self) -> u64 {
        self.value
    }
}

impl PartialOrd for ConfigRevision {
    fn partial_cmp(&self, other: &Self) -> (order: Option<Ordering>) {
        if self.value < other.value {
            Some(Ordering::Less)
        } else if self.value == other.value {
            Some(Ordering::Equal)
        } else {
            Some(Ordering::Greater)
        }
    }
}

impl vstd::std_specs::cmp::PartialOrdSpecImpl for ConfigRevision {
    open spec fn obeys_partial_cmp_spec() -> bool {
        true
    }

    open spec fn partial_cmp_spec(&self, other: &Self) -> Option<Ordering> {
        if self@ < other@ {
            Some(Ordering::Less)
        } else if self@ == other@ {
            Some(Ordering::Equal)
        } else {
            Some(Ordering::Greater)
        }
    }
}

/// How `<`, `>` and their relatives order two revisions.
pub open spec fn revision_order(first: ConfigRevision, second: ConfigRevision) -> Option<Ordering> {
    vstd::std_specs::cmp::PartialOrdSpec::partial_cmp_spec(&first, &second)
}

/// Revisions are ordered as their numbers are, and two revisions with one number are the same.
pub proof fn law_revisions_order_as_their_numbers(first: ConfigRevision, second: ConfigRevision)
    ensures
        revision_order(first, second) == Some(Ordering::Less) <==> first@ < second@,
        revision_order(first, second) == Some(Ordering::Equal) <==> first == second,
        revision_order(first, second) == Some(Ordering::Greater) <==> first@ > second@,
        first == second <==> first@ == second@,
{
}

impl ConfigRevision {
    /// Revision assigned to the initial `ExecutionConfig` of a loop.
    pub fn initial() -> (revision: Self)
        ensures
            revision@ == 0,
    {
        ConfigRevision { value: 0 }
    }

    pub fn new(value: u64) -> (revision: Self)
        ensures
            revision@ == value,
    {
        ConfigRevision { value }
    }

    pub fn as_u64(self) -> (value: u64)
        ensures
            value == self@,
    {
        self.value
    }
}

#[non_exhaustive]
#[derive(Clone, Copy, Debug, PartialEq, Eq, Structural)]
pub enum ExecutionConfigError {
    ModelDescriptorPanicked,
    InvalidDescriptor,
    UnsupportedReasoning,
    ToolsUnsupported,
    InvalidTools,
}

impl ExecutionConfigError {
    pub open spec fn spec_message(self) -> Seq<char> {
        match self {
            ExecutionConfigError::ModelDescriptorPanicked => "model descriptor access panicked"@,
            ExecutionConfigError::InvalidDescriptor => "model descriptor is invalid"@,
            ExecutionConfigError::UnsupportedReasoning =>
                "model does not support the requested reasoning preference"@,
            ExecutionConfigError::ToolsUnsupported =>
                "model does not support tools but tools are configured"@,
            ExecutionConfigError::InvalidTools => "tool set contains invalid tool specs"@,
        }
    }

    /// The fixed text shown for this failure.
    pub fn message(self) -> (text: &'static str)
        ensures
            text@ == self.spec_message(),
    {
        match self {
            ExecutionConfigError::ModelDescriptorPanicked => "model descriptor access panicked",
            ExecutionConfigError::InvalidDescriptor => "model descriptor is invalid",
            ExecutionConfigError::UnsupportedReasoning =>
                "model does not support the requested reasoning preference",
            ExecutionConfigError::ToolsUnsupported =>
                "model does not support tools but tools are configured",
            ExecutionConfigError::InvalidTools => "tool set contains invalid tool specs",
        }
    }
}

/// How hard a model is asked to think, known by its number.
#[derive(Clone, Copy, Debug, PartialEq, Eq, Structural)]
pub struct ReasoningPreference {
    pub number: u8,
}

/// What a configuration reads of a model.
pub struct ModelDescriptor {
    /// Whether the descriptor passed its own validation.
    pub valid: bool,
    /// The preferences that the model supports.
    pub reasoning: Vec<ReasoningPreference>,
    pub supports_tools: bool,
}

impl Clone for ModelDescriptor {
    fn clone(&self) -> (copy: Self)
        ensures
            copy.is_same(*self),
    {
        let reasoning = self.reasoning.clone();
        assert(reasoning@ =~= self.reasoning@);
        ModelDescriptor { valid: self.valid, reasoning, supports_tools: self.supports_tools }
    }
}

impl ModelDescriptor {
    pub open spec fn is_same(self, other: Self) -> bool {
        &&& self.valid == other.valid
        &&& self.reasoning@ == other.reasoning@
        &&& self.supports_tools == other.supports_tools
    }

    pub open spec fn supports(self, reasoning: ReasoningPreference) -> bool {
        self.reasoning@.contains(reasoning)
    }

    pub fn supports_reasoning(&self, reasoning: ReasoningPreference) -> (supported: bool)
        ensures
            supported == self.supports(reasoning),
    {
        let mut i: usize = 0;
        while i < self.reasoning.len()
            invariant
                i <= self.reasoning@.len(),
                forall|k: int| 0 <= k < i ==> self.reasoning@[k] != reasoning,
            decreases self.reasoning.len() - i,
        {
            if self.reasoning[i] == reasoning {
                return true;
            }
            i = i + 1;
        }
        false
    }
}

/// What a configuration reads of one frozen tool spec.
pub struct ToolSpec {
    pub name: String,
    /// Whether the spec passed its own validation.
    pub valid: bool,
}

impl Clone for ToolSpec {
    fn clone(&self) -> (copy: Self)
        ensures
            copy == *self,
    {
        ToolSpec { name: self.name.clone(), valid: self.valid }
    }
}

/// The frozen tools of a configuration.
pub struct ToolSet {
    pub specs: Vec<ToolSpec>,
}

impl Clone for ToolSet {
    fn clone(&self) -> (copy: Self)
        ensures
            copy.specs@ == self.specs@,
    {
        let specs = self.specs.clone();
        assert(specs@ =~= self.specs@);
        ToolSet { specs }
    }
}

impl ToolSet {
    pub open spec fn all_valid(self) -> bool {
        forall|i: int| 0 <= i < self.specs@.len() ==> (#[trigger] self.specs@[i]).valid
    }
}

/// What came of asking a model for its descriptor.
pub enum DescriptorAccess {
    Panicked,
    Returned(ModelDescriptor),
}

/// Why a configuration is refused, the first reason first.
pub open spec fn refusal(
    access: DescriptorAccess,
    reasoning: ReasoningPreference,
    tools: ToolSet,
) -> Option<ExecutionConfigError> {
    match access {
        DescriptorAccess::Panicked => Some(ExecutionConfigError::ModelDescriptorPanicked),
        DescriptorAccess::Returned(descriptor) => if !descriptor.valid {
            Some(ExecutionConfigError::InvalidDescriptor)
        } else if !descriptor.supports(reasoning) {
            Some(ExecutionConfigError::UnsupportedReasoning)
        } else if tools.specs@.len() > 0 && !descriptor.supports_tools {
            Some(ExecutionConfigError::ToolsUnsupported)
        } else if !tools.all_valid() {
            Some(ExecutionConfigError::InvalidTools)
        } else {
            None
        },
    }
}

/// A configuration is built exactly where its model could be asked, describes itself validly, offers
/// the reasoning, offers tools if there is any tool, and every single tool is valid. Whatever fails
/// first in this order is the reason of the refusal.
pub proof fn law_a_configuration_asks_only_for_what_is_offered(
    access: DescriptorAccess,
    reasoning: ReasoningPreference,
    tools: ToolSet,
)
    ensures
        match access {
            DescriptorAccess::Panicked => refusal(access, reasoning, tools) == Some(
                ExecutionConfigError::ModelDescriptorPanicked,
            ),
            DescriptorAccess::Returned(descriptor) => {
                let offered = exists|i: int|
                    0 <= i < descriptor.reasoning@.len() && #[trigger] descriptor.reasoning@[i]
                        == reasoning;
                let unused = tools.specs@.len() == 0;
                let sound = forall|i: int|
                    0 <= i < tools.specs@.len() ==> (#[trigger] tools.specs@[i]).valid;
                &&& refusal(access, reasoning, tools) == None::<ExecutionConfigError> <==> (
                descriptor.valid && offered && (unused || descriptor.supports_tools) && sound)
                &&& !descriptor.valid ==> refusal(access, reasoning, tools) == Some(
                    ExecutionConfigError::InvalidDescriptor,
                )
                &&& descriptor.valid && !offered ==> refusal(access, reasoning, tools) == Some(
                    ExecutionConfigError::UnsupportedReasoning,
                )
                &&& descriptor.valid && offered && !unused && !descriptor.supports_tools ==> refusal(
                    access,
                    reasoning,
                    tools,
                ) == Some(ExecutionConfigError::ToolsUnsupported)
                &&& descriptor.valid && offered && descriptor.supports_tools && !sound ==> refusal(
                    access,
                    reasoning,
                    tools,
                ) == Some(ExecutionConfigError::InvalidTools)
            },
        },
{
}

/// One more tool never makes a refused set of tools acceptable, and an invalid tool is refused
/// wherever it stands and whatever stands beside it.
pub proof fn law_every_tool_counts(
    descriptor: ModelDescriptor,
    reasoning: ReasoningPreference,
    tools: ToolSet,
    more: ToolSet,
    position: int,
)
    requires
        0 <= position <= tools.specs@.len(),
        more.specs@.len() == tools.specs@.len() + 1,
        more.specs@.remove(position) == tools.specs@,
    ensures
        refusal(DescriptorAccess::Returned(descriptor), reasoning, tools) is Some ==> refusal(
            DescriptorAccess::Returned(descriptor),
            reasoning,
            more,
        ) is Some,
        !more.specs@[position].valid ==> refusal(
            DescriptorAccess::Returned(descriptor),
            reasoning,
            more,
        ) is Some,
        more.specs@[position].valid && tools.specs@.len() > 0 ==> refusal(
            DescriptorAccess::Returned(descriptor),
            reasoning,
            more,
        ) == refusal(DescriptorAccess::Returned(descriptor), reasoning, tools),
{
    assert forall|i: int| 0 <= i < tools.specs@.len() implies #[trigger] tools.specs@[i]
        == more.specs@[if i < position {
        i
    } else {
        i + 1
    }] by {}
    assert forall|i: int| 0 <= i < more.specs@.len() && i != position implies #[trigger] more.specs@[i]
        == tools.specs@[if i < position {
        i
    } else {
        i - 1
    }] by {}
}

/// Immutable capability snapshot for one agent-loop request.
///
/// It is only ever replaced as a whole: there is no way to change its model, reasoning, tools, policy
/// or prompt alone.
pub struct ExecutionConfig<M, P, S> {
    model: M,
    descriptor: ModelDescriptor,
    reasoning: ReasoningPreference,
    tools: ToolSet,
    policy: Option<P>,
    prompt: S,
}

/// The parts of a configuration.
pub struct ExecutionConfigView<M, P, S> {
    pub model: M,
    pub descriptor: ModelDescriptor,
    pub reasoning: ReasoningPreference,
    pub tools: ToolSet,
    pub policy: Option<P>,
    pub prompt: S,
}

impl<M, P, S> View for ExecutionConfig<M, P, S> {
    type V = ExecutionConfigView<M, P, S>;

    closed spec fn view(&self) -> ExecutionConfigView<M, P, S> {
        ExecutionConfigView {
            model: self.model,
            descriptor: self.descriptor,
            reasoning: self.reasoning,
            tools: self.tools,
            policy: self.policy,
            prompt: self.prompt,
        }
    }
}

impl<M, P, S> ExecutionConfigView<M, P, S> {
    /// Everything that is asked of the model is something that it offers.
    pub open spec fn is_coherent(self) -> bool {
        refusal(DescriptorAccess::Returned(self.descriptor), self.reasoning, self.tools) is None
    }
}

/// What is coherent has only valid tools, a reasoning that the model offers, and tools only where the
/// model offers them.
pub proof fn law_a_coherent_configuration_is_sound<M, P, S>(config: ExecutionConfigView<M, P, S>)
    ensures
        config.is_coherent() <==> {
            &&& config.descriptor.valid
            &&& exists|i: int|
                0 <= i < config.descriptor.reasoning@.len()
                    && #[trigger] config.descriptor.reasoning@[i] == config.reasoning
            &&& config.tools.specs@.len() == 0 || config.descriptor.supports_tools
            &&& forall|i: int|
                0 <= i < config.tools.specs@.len() ==> (#[trigger] config.tools.specs@[i]).valid
        },
{
}

impl<M, P, S> ExecutionConfig<M, P, S> {
    #[verifier::type_invariant]
    spec fn is_coherent(&self) -> bool {
        self@.is_coherent()
    }

    /// Builds a configuration. `access` is what came of asking `model` for its descriptor.
    pub fn new(
        model: M,
        access: DescriptorAccess,
        reasoning: ReasoningPreference,
        tools: ToolSet,
        policy: Option<P>,
        prompt: S,
    ) -> (result: Result<Self, ExecutionConfigError>)
        ensures
            match refusal(access, reasoning, tools) {
                Some(error) => result == Err::<Self, ExecutionConfigError>(error),
                None => result is Ok && result->Ok_0@ == (ExecutionConfigView {
                    model,
                    descriptor: access->Returned_0,
                    reasoning,
                    tools,
                    policy,
                    prompt,
                }) && result->Ok_0@.is_coherent(),
            },
            result matches Ok(config) ==> {
                &&& config@.descriptor.valid
                &&& exists|i: int|
                    0 <= i < config@.descriptor.reasoning@.len()
                        && #[trigger] config@.descriptor.reasoning@[i] == reasoning
                &&& tools.specs@.len() == 0 || config@.descriptor.supports_tools
                &&& forall|i: int|
                    0 <= i < tools.specs@.len() ==> (#[trigger] tools.specs@[i]).valid
            },
    {
        let descriptor = match access {
            DescriptorAccess::Panicked => return Err(ExecutionConfigError::ModelDescriptorPanicked),
            DescriptorAccess::Returned(descriptor) => descriptor,
        };
        if !descriptor.valid {
            return Err(ExecutionConfigError::InvalidDescriptor);
        }
        if !descriptor.supports_reasoning(reasoning) {
            return Err(ExecutionConfigError::UnsupportedReasoning);
        }
        if tools.specs.len() > 0 && !descriptor.supports_tools {
            return Err(ExecutionConfigError::ToolsUnsupported);
        }
        let mut i: usize = 0;
        while i < tools.specs.len()
            invariant
                i <= tools.specs@.len(),
                forall|k: int| 0 <= k < i ==> (#[trigger] tools.specs@[k]).valid,
                access == DescriptorAccess::Returned(descriptor),
                descriptor.valid,
                descriptor.supports(reasoning),
                tools.specs@.len() > 0 ==> descriptor.supports_tools,
            decreases tools.specs.len() - i,
        {
            if !tools.specs[i].valid {
                return Err(ExecutionConfigError::InvalidTools);
            }
            i = i + 1;
        }
        Ok(ExecutionConfig { model, descriptor, reasoning, tools, policy, prompt })
    }

    pub fn model(&self) -> (model: &M)
        ensures
            *model == self@.model,
    {
        &self.model
    }

    pub fn descriptor(&self) -> (descriptor: &ModelDescriptor)
        ensures
            *descriptor == self@.descriptor,
            self@.is_coherent(),
    {
        proof {
            use_type_invariant(&*self);
        }
        &self.descriptor
    }

    pub fn reasoning(&self) -> (reasoning: ReasoningPreference)
        ensures
            reasoning == self@.reasoning,
    {
        self.reasoning
    }

    pub fn tools(&self) -> (tools: &ToolSet)
        ensures
            *tools == self@.tools,
    {
        &self.tools
    }

    pub fn policy(&self) -> (policy: Option<&P>)
        ensures
            match policy {
                Some(policy) => self@.policy == Some(*policy),
                None => self@.policy is None,
            },
    {
        self.policy.as_ref()
    }

    pub fn prompt(&self) -> (prompt: &S)
        ensures
            *prompt == self@.prompt,
    {
        &self.prompt
    }
}

impl<M: Clone, P: Clone, S: Clone> Clone for ExecutionConfig<M, P, S> {
    fn clone(&self) -> (copy: Self)
        ensures
            cloned(self@.model, copy@.model),
            copy@.descriptor.is_same(self@.descriptor),
            copy@.reasoning == self@.reasoning,
            copy@.tools.specs@ == self@.tools.specs@,
            match (self@.policy, copy@.policy) {
                (Some(policy), Some(copied)) => cloned(policy, copied),
                (None, None) => true,
                _ => false,
            },
            cloned(self@.prompt, copy@.prompt),
    {
        proof {
            use_type_invariant(&*self);
        }
        ExecutionConfig {
            model: self.model.clone(),
            descriptor: self.descriptor.clone(),
            reasoning: self.reasoning,
            tools: self.tools.clone(),
            policy: self.policy.clone(),
            prompt: self.prompt.clone(),
        }
    }
}

} // verus!
