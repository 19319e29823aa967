//! The workflow model: steps, dependencies, retry policy, schema validation.

use vstd::prelude::*;
use crate::json::JsonValue;
use crate::errors::OrchestratorError;
use crate::strutil::{str_eq, copy_str};

verus! {

/// The kind of work a step performs.
#[derive(Debug, Clone, Copy, PartialEq, Eq, Structural)]
pub enum StepType {
    Llm,
    Embed,
    VectorSearch,
    Transform,
    Action,
    Parallel,
    Branch,
}

/// How the delay between retry attempts grows.
#[derive(Debug, Clone, Copy, PartialEq, Eq, Structural)]
pub enum BackoffStrategy {
    Constant,
    Linear,
    Exponential,
}

/// Per-step retry policy as declared in a workflow file.
#[derive(Debug, Clone)]
pub struct RetryConfig {
    /// Total number of attempts, including the first (at least 1).
    pub max_attempts: u32,
    pub backoff: BackoffStrategy,
    pub initial_delay_ms: u64,
    pub max_delay_ms: u64,
}

/// Config of an LLM completion step.
///
/// `temperature_milli` carries the sampling temperature in thousandths
/// (700 stands for 0.7): the core never computes with it, it is handed
/// through to the provider.
#[derive(Debug, Clone)]
pub struct LlmStepConfig {
    pub provider: String,
    pub model: String,
    pub prompt: String,
    pub temperature_milli: Option<u32>,
    pub max_tokens: Option<u32>,
    pub system: Option<String>,
    pub stream: bool,
    pub extra: Vec<(String, JsonValue)>,
}

/// Config of a transform step.
#[derive(Debug, Clone)]
pub struct TransformConfig {
    pub function: String,
    pub inputs: Vec<String>,
    pub params: Vec<(String, JsonValue)>,
}

/// Config of an action step.
#[derive(Debug, Clone)]
pub struct ActionConfig {
    pub action: String,
    pub params: Vec<(String, JsonValue)>,
}

/// Config of an embedding step.
#[derive(Debug, Clone)]
pub struct EmbedConfig {
    pub provider: String,
    pub model: String,
    pub input: String,
}

/// Config of a vector-search step.
#[derive(Debug, Clone)]
pub struct VectorSearchConfig {
    pub index: String,
    pub query: String,
    pub top_k: u32,
}

/// Config of a parallel step.
#[derive(Debug, Clone)]
pub struct ParallelConfig {
    pub branches: Vec<String>,
}

/// Config of a branch step.
#[derive(Debug, Clone)]
pub struct BranchConfig {
    pub condition: String,
    pub then_steps: Vec<String>,
    pub else_steps: Vec<String>,
}

/// The tagged config variant of a step; must agree with the step's kind.
#[derive(Debug, Clone)]
pub enum StepConfig {
    Llm(LlmStepConfig),
    Embed(EmbedConfig),
    VectorSearch(VectorSearchConfig),
    Transform(TransformConfig),
    Action(ActionConfig),
    Parallel(ParallelConfig),
    Branch(BranchConfig),
}

/// One step of a workflow.
#[derive(Debug, Clone)]
pub struct Step {
    /// Identifier, unique within the workflow.
    pub id: String,
    pub step_type: StepType,
    /// Ids of the steps this one depends on.
    pub depends_on: Vec<String>,
    /// Optional boolean condition over the context; `false` skips the step.
    pub condition: Option<String>,
    pub config: StepConfig,
    /// Names under which the step publishes its outputs.
    pub output: Vec<String>,
    pub timeout_seconds: Option<u64>,
    pub retry: Option<RetryConfig>,
}

/// A declarative workflow: an identifier and a list of steps.
#[derive(Debug, Clone)]
pub struct Workflow {
    /// Stable identifier (a UUID in its string form).
    pub id: String,
    pub name: String,
    pub version: String,
    pub description: Option<String>,
    pub timeout_seconds: Option<u64>,
    pub steps: Vec<Step>,
    pub metadata: Vec<(String, JsonValue)>,
}

/// Whether a step's kind tag and its config variant agree.
pub open spec fn spec_config_matches(s: Step) -> bool {
    match (s.step_type, s.config) {
        (StepType::Llm, StepConfig::Llm(_)) => true,
        (StepType::Embed, StepConfig::Embed(_)) => true,
        (StepType::VectorSearch, StepConfig::VectorSearch(_)) => true,
        (StepType::Transform, StepConfig::Transform(_)) => true,
        (StepType::Action, StepConfig::Action(_)) => true,
        (StepType::Parallel, StepConfig::Parallel(_)) => true,
        (StepType::Branch, StepConfig::Branch(_)) => true,
        _ => false,
    }
}

/// Whether some declared step carries the given id.
pub open spec fn spec_declares(steps: Seq<Step>, id: Seq<char>) -> bool {
    exists|i: int| 0 <= i < steps.len() && steps[i].id@ == id
}

/// Whether all step ids are pairwise distinct.
pub open spec fn spec_ids_unique(steps: Seq<Step>) -> bool {
    forall|i: int, j: int| 0 <= i < j < steps.len() ==> steps[i].id@ != steps[j].id@
}

/// Whether one step is well-formed within its workflow: every dependency
/// references a declared step, none references the step itself, and the
/// kind tag agrees with the config variant.
pub open spec fn spec_step_wf(steps: Seq<Step>, s: Step) -> bool {
    &&& forall|k: int| 0 <= k < s.depends_on@.len() ==> spec_declares(steps, #[trigger] s.depends_on@[k]@)
    &&& forall|k: int| 0 <= k < s.depends_on@.len() ==> #[trigger] s.depends_on@[k]@ != s.id@
    &&& spec_config_matches(s)
}

/// The workflow schema invariant: non-empty name and version, unique step
/// ids, and every step well-formed.
pub open spec fn spec_workflow_valid(w: Workflow) -> bool {
    &&& w.name@.len() > 0
    &&& w.version@.len() > 0
    &&& spec_ids_unique(w.steps@)
    &&& forall|i: int| 0 <= i < w.steps@.len() ==> spec_step_wf(w.steps@, #[trigger] w.steps@[i])
}

/// Whether any declared step carries the given id (linear scan).
pub(crate) fn steps_declare(steps: &Vec<Step>, id: &str) -> (r: bool)
    ensures
        r == spec_declares(steps@, id@),
{
    let n = steps.len();
    let mut i: usize = 0;
    while i < n
        invariant
            0 <= i <= n,
            n == steps@.len(),
            forall|k: int| 0 <= k < i ==> steps@[k].id@ != id@,
        decreases n - i,
    {
        if str_eq(steps[i].id.as_str(), id) {
            return true;
        }
        i = i + 1;
    }
    false
}

impl Step {
    /// Whether this step's kind tag and config variant agree.
    pub fn config_matches(&self) -> (r: bool)
        ensures
            r == spec_config_matches(*self),
    {
        match (self.step_type, &self.config) {
            (StepType::Llm, StepConfig::Llm(_)) => true,
            (StepType::Embed, StepConfig::Embed(_)) => true,
            (StepType::VectorSearch, StepConfig::VectorSearch(_)) => true,
            (StepType::Transform, StepConfig::Transform(_)) => true,
            (StepType::Action, StepConfig::Action(_)) => true,
            (StepType::Parallel, StepConfig::Parallel(_)) => true,
            (StepType::Branch, StepConfig::Branch(_)) => true,
            _ => false,
        }
    }
}

impl Workflow {
    /// Checks the schema invariant: succeeds exactly on valid workflows.
    pub fn validate(&self) -> (r: Result<(), OrchestratorError>)
        ensures
            r is Ok <==> spec_workflow_valid(*self),
            r is Err ==> r->Err_0 is Validation,
    {
        if self.name.as_str().is_empty() {
            return Err(OrchestratorError::Validation(copy_str("workflow name is empty")));
        }
        if self.version.as_str().is_empty() {
            return Err(OrchestratorError::Validation(copy_str("workflow version is empty")));
        }
        let n = self.steps.len();
        let mut i: usize = 0;
        while i < n
            invariant
                0 <= i <= n,
                n == self.steps@.len(),
                forall|a: int, b: int| 0 <= a < b < i ==> self.steps@[a].id@ != self.steps@[b].id@,
                forall|a: int| 0 <= a < i ==> spec_step_wf(self.steps@, #[trigger] self.steps@[a]),
            decreases n - i,
        {
            let step = &self.steps[i];
            // uniqueness against earlier steps
            let mut j: usize = 0;
            while j < i
                invariant
                    0 <= j <= i < n,
                    n == self.steps@.len(),
                    forall|b: int| 0 <= b < j ==> self.steps@[b].id@ != self.steps@[i as int].id@,
                    step == self.steps@[i as int],
                decreases i - j,
            {
                if str_eq(self.steps[j].id.as_str(), step.id.as_str()) {
                    return Err(OrchestratorError::Validation(copy_str("duplicate step id")));
                }
                j = j + 1;
            }
            // dependencies declared, no self-dependency
            let dn = step.depends_on.len();
            let mut k: usize = 0;
            while k < dn
                invariant
                    0 <= k <= dn,
                    dn == step.depends_on@.len(),
                    step == self.steps@[i as int],
                    0 <= i < n,
                    n == self.steps@.len(),
                    forall|c: int| 0 <= c < k ==> spec_declares(self.steps@, #[trigger] step.depends_on@[c]@),
                    forall|c: int| 0 <= c < k ==> #[trigger] step.depends_on@[c]@ != step.id@,
                decreases dn - k,
            {
                let dep = &step.depends_on[k];
                if str_eq(dep.as_str(), step.id.as_str()) {
                    return Err(OrchestratorError::Validation(copy_str("step depends on itself")));
                }
                if !steps_declare(&self.steps, dep.as_str()) {
                    return Err(OrchestratorError::Validation(copy_str("dependency on undeclared step")));
                }
                k = k + 1;
            }
            if !step.config_matches() {
                return Err(OrchestratorError::Validation(copy_str("step kind and config disagree")));
            }
            i = i + 1;
        }
        Ok(())
    }
}

} // verus!
