//! The workflow executor: drives a validated workflow's steps to terminal
//! status in topological order.
//!
//! This is the reference scheduler: it dispatches one step at a time along
//! the DAG's order, so every dependency has reached a terminal status
//! before its dependents begin, whatever the concurrency bound. A
//! concurrent driver may fan independent steps out; per-step timeouts and
//! backoff pauses are its suspension points and live with it, outside the
//! core. A failed step does not abort the workflow: later steps still run
//! and report their own results.

use vstd::prelude::*;
use crate::workflow::{Workflow, Step, StepType, StepConfig, LlmStepConfig, spec_workflow_valid};
use crate::dag::{WorkflowDAG, dag_from_workflow, spec_is_topo_order};
use crate::context::ExecutionContext;
use crate::json::{JsonValue, JsonSpec, first_binding, jv_model_fields};
use crate::errors::{OrchestratorError, RenderError};
use crate::providers::{LLMProvider, CompletionRequest, CompletionResponse, ProviderError};
use crate::retry::RetryPolicy;
use crate::strutil::{str_eq, copy_str};
use crate::clock::{now_unix_millis, elapsed_ms};

verus! {

/// Execution status of a step.
#[derive(Debug, Clone, Copy, PartialEq, Eq, Structural)]
pub enum StepStatus {
    /// Waiting for its dependencies.
    Pending,
    /// Currently executing.
    Running,
    /// Finished and published its outputs.
    Completed,
    /// Gave up after its attempts were spent.
    Failed,
    /// Left out because its condition was false.
    Skipped,
}

/// The step at position `k` of a topological index order.
pub open spec fn spec_step_at(steps: Seq<Step>, topo: Seq<usize>, k: int) -> Step {
    steps[topo[k] as int]
}

/// Whether a status is terminal: once reached, never left.
pub open spec fn spec_is_terminal(s: StepStatus) -> bool {
    s is Completed || s is Failed || s is Skipped
}

/// Whether a provider is registered under a name.
pub open spec fn spec_has_provider<P>(providers: Seq<(String, P)>, name: Seq<char>) -> bool {
    exists|k: int| 0 <= k < providers.len() && (#[trigger] providers[k]).0@ == name
}

/// Whether two registries hold the same names at the same positions (the
/// providers behind the names may have moved their own state).
pub open spec fn spec_same_provider_names<P>(a: Seq<(String, P)>, b: Seq<(String, P)>) -> bool {
    &&& a.len() == b.len()
    &&& forall|k: int| 0 <= k < a.len() ==> (#[trigger] a[k]).0@ == b[k].0@
}

/// Registries with the same names register the same names.
proof fn lemma_same_names_same_provider<P>(a: Seq<(String, P)>, b: Seq<(String, P)>, name: Seq<char>)
    requires
        spec_same_provider_names(a, b),
    ensures
        spec_has_provider(a, name) == spec_has_provider(b, name),
{
    if spec_has_provider(a, name) {
        let k = choose|k: int| 0 <= k < a.len() && (#[trigger] a[k]).0@ == name;
        assert(b[k].0@ == name);
    }
    if spec_has_provider(b, name) {
        let k = choose|k: int| 0 <= k < b.len() && (#[trigger] b[k]).0@ == name;
        assert(a[k].0@ == name);
    }
}

/// The JSON object the `_response` output carries for a provider answer.
pub open spec fn spec_response_json(text: Seq<char>, model: Seq<char>, tokens_used: Option<u32>) -> JsonSpec {
    match tokens_used {
        Option::Some(t) => JsonSpec::Obj(seq![
            ("text"@, JsonSpec::Str(text)),
            ("model"@, JsonSpec::Str(model)),
            ("tokens_used"@, JsonSpec::Int(t as int)),
        ]),
        Option::None => JsonSpec::Obj(seq![
            ("text"@, JsonSpec::Str(text)),
            ("model"@, JsonSpec::Str(model)),
        ]),
    }
}

/// The outputs a completed LLM step publishes: the answer's text under
/// the first declared output name, and the whole answer under `_response`.
pub open spec fn spec_llm_outputs(
    output_names: Seq<Seq<char>>,
    text: Seq<char>,
    response: JsonSpec,
) -> Seq<(Seq<char>, JsonSpec)> {
    if output_names.len() > 0 {
        seq![(output_names[0], JsonSpec::Str(text)), ("_response"@, response)]
    } else {
        seq![("_response"@, response)]
    }
}

/// Whether outputs have the shape a completed LLM step publishes, for
/// some provider answer: the same text under the first output name and
/// inside the `_response` object.
pub open spec fn spec_is_llm_output_shape(
    outs: Seq<(Seq<char>, JsonSpec)>,
    output_names: Seq<Seq<char>>,
) -> bool {
    exists|text: Seq<char>, model: Seq<char>, tokens: Option<u32>|
        outs == #[trigger] spec_llm_outputs(
            output_names,
            text,
            spec_response_json(text, model, tokens),
        )
}

/// The record a dispatched step (condition passed) must end with, by
/// kind: the no-op kinds complete with no outputs, the unimplemented
/// kinds fail.
pub open spec fn spec_dispatched_ok(s: Step, e: StepResult) -> bool {
    &&& ((s.step_type is Transform || s.step_type is Action
        || s.step_type is Parallel || s.step_type is Branch)
            ==> e.status is Completed && e.outputs@.len() == 0)
    &&& ((s.step_type is Embed || s.step_type is VectorSearch) ==> e.status is Failed)
}

/// What one attempt of a step may come to: the no-op kinds succeed with
/// no outputs, the unimplemented kinds fail, and an LLM attempt succeeds
/// only with a registered provider and a prompt that renders, yielding
/// the published output shape.
pub open spec fn spec_attempt_post<P>(
    s: Step,
    providers: Seq<(String, P)>,
    ins: Seq<(Seq<char>, JsonSpec)>,
    outs_tbl: Seq<(Seq<char>, JsonSpec)>,
    r: Result<Vec<(String, JsonValue)>, OrchestratorError>,
) -> bool {
    &&& (match r {
        Result::Ok(outs) => {
            &&& !(s.step_type is Embed) && !(s.step_type is VectorSearch)
            &&& ((s.step_type is Transform || s.step_type is Action
                || s.step_type is Parallel || s.step_type is Branch)
                    ==> outs@.len() == 0)
            &&& (s.step_type is Llm ==> {
                &&& spec_has_provider(providers, s.config->Llm_0.provider@)
                &&& crate::context::spec_render(s.config->Llm_0.prompt@, ins, outs_tbl) is Ok
                &&& spec_is_llm_output_shape(
                    crate::json::jv_model_fields(outs@),
                    crate::strutil::strings_view(s.output@),
                )
            })
        },
        Result::Err(_) => !(s.step_type is Transform) && !(s.step_type is Action)
            && !(s.step_type is Parallel) && !(s.step_type is Branch),
    })
    &&& (s.step_type is Llm && !spec_has_provider(providers, s.config->Llm_0.provider@)
        ==> r is Err)
}

/// The terminal record of one step.
#[derive(Debug, Clone)]
pub struct StepResult {
    /// The step this result belongs to.
    pub step_id: String,
    /// Terminal status.
    pub status: StepStatus,
    /// Published outputs; empty unless Completed.
    pub outputs: Vec<(String, JsonValue)>,
    /// The failure, present exactly when Failed.
    pub error: Option<String>,
    /// Wall-clock duration in milliseconds.
    pub duration_ms: u64,
}

/// The results of one workflow execution, keyed by step id in dispatch
/// order.
pub struct ExecutionResults {
    /// One entry per declared step, in the order steps were dispatched.
    pub entries: Vec<(String, StepResult)>,
}

impl ExecutionResults {
    /// The result recorded for a step id, if any.
    pub fn get<'a>(&'a self, step_id: &str) -> (r: Option<&'a StepResult>)
        ensures
            match r {
                Option::Some(v) => exists|k: int|
                    0 <= k < self.entries@.len() && #[trigger] self.entries@[k].0@ == step_id@
                        && self.entries@[k].1 == *v,
                Option::None => forall|k: int|
                    0 <= k < self.entries@.len() ==> #[trigger] self.entries@[k].0@ != step_id@,
            },
    {
        let n = self.entries.len();
        let mut i: usize = 0;
        while i < n
            invariant
                0 <= i <= n,
                n == self.entries@.len(),
                forall|k: int| 0 <= k < i ==> #[trigger] self.entries@[k].0@ != step_id@,
            decreases n - i,
        {
            if str_eq(self.entries[i].0.as_str(), step_id) {
                return Some(&self.entries[i].1);
            }
            i = i + 1;
        }
        None
    }

    /// How many steps have results.
    pub fn len(&self) -> (r: usize)
        ensures
            r == self.entries@.len(),
    {
        self.entries.len()
    }

    /// Whether no step has a result.
    pub fn is_empty(&self) -> (r: bool)
        ensures
            r == (self.entries@.len() == 0),
    {
        self.entries.len() == 0
    }
}

/// The executor of one workflow: its DAG, its context, its providers.
pub struct WorkflowExecutor<P: LLMProvider> {
    /// The validated workflow.
    pub workflow: Workflow,
    /// Its dependency graph with a topological order.
    pub dag: WorkflowDAG,
    /// Initial inputs and published outputs.
    pub context: ExecutionContext,
    /// Bound on concurrently running steps; 0 means unbounded. The
    /// reference scheduler is sequential, which satisfies every bound.
    pub max_concurrency: usize,
    /// Registered completion providers, by name.
    pub providers: Vec<(String, P)>,
}

impl<P: LLMProvider> WorkflowExecutor<P> {
    /// The executor's structural invariant.
    pub open spec fn wf(self) -> bool {
        &&& spec_workflow_valid(self.workflow)
        &&& self.dag.wf()
        &&& self.dag.matches(self.workflow.steps@)
        &&& spec_is_topo_order(self.workflow.steps@, self.dag.order_views())
    }

    /// Whether no step has published outputs yet.
    pub open spec fn fresh(self) -> bool {
        self.context.outputs_view() == Seq::<(Seq<char>, crate::json::JsonSpec)>::empty()
    }

    /// The step standing at position `k` of the execution order.
    pub open spec fn step_at(self, k: int) -> Step {
        spec_step_at(self.workflow.steps@, self.dag.topo@, k)
    }

    /// Validates the workflow, builds its DAG, and readies a context over
    /// the given inputs. Fails exactly on an invalid or cyclic workflow.
    pub fn new(workflow: Workflow, inputs: Vec<(String, JsonValue)>) -> (r: Result<Self, OrchestratorError>)
        ensures
            match r {
                Result::Ok(ex) => {
                    &&& ex.wf()
                    &&& ex.fresh()
                    &&& ex.workflow == workflow
                    &&& ex.max_concurrency == 0
                    &&& ex.providers@.len() == 0
                },
                Result::Err(e) => match e {
                    OrchestratorError::Validation(_) => !spec_workflow_valid(workflow),
                    OrchestratorError::CycleDetected(p) => crate::dag::spec_is_cycle_path(
                        workflow.steps@,
                        Seq::new(p@.len(), |k: int| p@[k]@),
                    ),
                    _ => false,
                },
            },
    {
        match workflow.validate() {
            Result::Ok(_) => {},
            Result::Err(e) => {
                match e {
                    OrchestratorError::Validation(m) => {
                        return Err(OrchestratorError::Validation(m));
                    },
                    _ => {
                        proof {
                            assert(false);
                        }
                        return Err(e);
                    },
                }
            },
        }
        let dag = match dag_from_workflow(&workflow) {
            Result::Ok(d) => d,
            Result::Err(e) => {
                match e {
                    OrchestratorError::CycleDetected(p) => {
                        return Err(OrchestratorError::CycleDetected(p));
                    },
                    _ => {
                        proof {
                            assert(false);
                        }
                        return Err(e);
                    },
                }
            },
        };
        let context = ExecutionContext::new(inputs);
        Ok(WorkflowExecutor {
            workflow,
            dag,
            context,
            max_concurrency: 0,
            providers: Vec::new(),
        })
    }

    /// Sets the bound on concurrently running steps; 0 means unbounded.
    pub fn with_max_concurrency(self, max: usize) -> (r: Self)
        ensures
            r == (WorkflowExecutor { max_concurrency: max, ..self }),
    {
        WorkflowExecutor { max_concurrency: max, ..self }
    }

    /// Registers a completion provider under a name.
    pub fn with_provider(self, name: String, provider: P) -> (r: Self)
        ensures
            r.workflow == self.workflow,
            r.dag == self.dag,
            r.context == self.context,
            r.max_concurrency == self.max_concurrency,
            r.providers@ == self.providers@.push((name, provider)),
    {
        let mut s = self;
        s.providers.push((name, provider));
        s
    }

    /// One attempt of one step's work. Returns the step's outputs.
    fn attempt_step(&mut self, idx: usize) -> (r: Result<Vec<(String, JsonValue)>, OrchestratorError>)
        requires
            old(self).wf(),
            idx < old(self).workflow.steps@.len(),
        ensures
            final(self).workflow == old(self).workflow,
            final(self).dag == old(self).dag,
            final(self).context == old(self).context,
            final(self).max_concurrency == old(self).max_concurrency,
            spec_same_provider_names(old(self).providers@, final(self).providers@),
            final(self).wf(),
            spec_attempt_post(
                old(self).workflow.steps@[idx as int],
                old(self).providers@,
                old(self).context.inputs_view(),
                old(self).context.outputs_view(),
                r,
            ),
    {
        let step_type = self.workflow.steps[idx].step_type;
        match step_type {
            StepType::Transform => Ok(Vec::new()),
            StepType::Action => Ok(Vec::new()),
            StepType::Parallel => Ok(Vec::new()),
            StepType::Branch => Ok(Vec::new()),
            StepType::Embed => Err(OrchestratorError::Other(copy_str(
                "embed provider integration not implemented",
            ))),
            StepType::VectorSearch => Err(OrchestratorError::Other(copy_str(
                "vector search integration not implemented",
            ))),
            StepType::Llm => self.attempt_llm_step(idx),
        }
    }

    /// One attempt of an LLM step: render the prompt over the context,
    /// hand it to the registered provider, and shape the answer into the
    /// published outputs. Fails when no provider is registered under the
    /// config's name, when the prompt does not render, or when the
    /// provider itself fails.
    fn attempt_llm_step(&mut self, idx: usize) -> (r: Result<Vec<(String, JsonValue)>, OrchestratorError>)
        requires
            old(self).wf(),
            idx < old(self).workflow.steps@.len(),
            old(self).workflow.steps@[idx as int].step_type is Llm,
        ensures
            final(self).workflow == old(self).workflow,
            final(self).dag == old(self).dag,
            final(self).context == old(self).context,
            final(self).max_concurrency == old(self).max_concurrency,
            spec_same_provider_names(old(self).providers@, final(self).providers@),
            final(self).wf(),
            spec_attempt_post(
                old(self).workflow.steps@[idx as int],
                old(self).providers@,
                old(self).context.inputs_view(),
                old(self).context.outputs_view(),
                r,
            ),
    {
        let ghost s0 = old(self).workflow.steps@[idx as int];
        let cfg = match &self.workflow.steps[idx].config {
            StepConfig::Llm(cfg) => cfg,
            _ => {
                proof {
                    assert(crate::workflow::spec_config_matches(
                        self.workflow.steps@[idx as int]));
                    assert(false);
                }
                return Err(OrchestratorError::InvalidStepConfig(
                    self.workflow.steps[idx].id.clone(),
                    copy_str("an LLM step needs an LLM config"),
                ));
            },
        };
        // find the registered provider
        let pn = self.providers.len();
        let mut pi: usize = 0;
        let mut found = false;
        while pi < pn && !found
            invariant
                0 <= pi <= pn,
                pn == self.providers@.len(),
                cfg == s0.config->Llm_0,
                !found ==> forall|k: int| 0 <= k < pi
                    ==> (#[trigger] self.providers@[k]).0@ != cfg.provider@,
                found ==> pi < pn && self.providers@[pi as int].0@ == cfg.provider@,
            decreases pn - pi + if found { 0int } else { 1int },
        {
            if str_eq(self.providers[pi].0.as_str(), cfg.provider.as_str()) {
                found = true;
            } else {
                pi = pi + 1;
            }
        }
        if !found {
            let mut m = copy_str("provider not registered: ");
            m.append(cfg.provider.as_str());
            proof {
                if spec_has_provider(self.providers@, cfg.provider@) {
                    let k = choose|k: int|
                        0 <= k < self.providers@.len()
                            && (#[trigger] self.providers@[k]).0@ == cfg.provider@;
                }
            }
            return Err(OrchestratorError::Other(m));
        }
        // render the prompt over the context
        let prompt = match self.context.render_template(cfg.prompt.as_str()) {
            Result::Ok(p) => p,
            Result::Err(e) => {
                return Err(OrchestratorError::Render(e));
            },
        };
        let request = build_completion_request(cfg, prompt);
        let output_names = crate::strutil::clone_strings(&self.workflow.steps[idx].output);
        let response = match self.providers[pi].1.complete(&request) {
            Result::Ok(resp) => resp,
            Result::Err(e) => {
                let mut m = copy_str("provider error: ");
                m.append(e.message().as_str());
                proof {
                    assert(spec_same_provider_names(old(self).providers@, self.providers@));
                }
                return Err(OrchestratorError::Other(m));
            },
        };
        let outputs = shape_llm_outputs(&output_names, &response);
        proof {
            assert(spec_same_provider_names(old(self).providers@, self.providers@));
            assert(crate::strutil::strings_view(output_names@)
                =~= crate::strutil::strings_view(s0.output@));
            assert(spec_is_llm_output_shape(
                crate::json::jv_model_fields(outputs@),
                crate::strutil::strings_view(s0.output@),
            )) by {
                assert(crate::json::jv_model_fields(outputs@) == spec_llm_outputs(
                    crate::strutil::strings_view(s0.output@),
                    response.text@,
                    spec_response_json(response.text@, response.model@, response.tokens_used),
                ));
            }
            assert(spec_has_provider(old(self).providers@, cfg.provider@)) by {
                assert(old(self).providers@[pi as int].0@ == cfg.provider@);
            }
        }
        Ok(outputs)
    }

    /// Runs one step's attempts under its retry policy and returns the
    /// first success or the last failure. The reference scheduler makes
    /// the attempts back to back; a concurrent driver pauses between them
    /// by the policy's delay schedule.
    fn run_step_attempts(&mut self, idx: usize) -> (r: Result<Vec<(String, JsonValue)>, OrchestratorError>)
        requires
            old(self).wf(),
            idx < old(self).workflow.steps@.len(),
        ensures
            final(self).workflow == old(self).workflow,
            final(self).dag == old(self).dag,
            final(self).context == old(self).context,
            final(self).max_concurrency == old(self).max_concurrency,
            spec_same_provider_names(old(self).providers@, final(self).providers@),
            final(self).wf(),
            spec_attempt_post(
                old(self).workflow.steps@[idx as int],
                old(self).providers@,
                old(self).context.inputs_view(),
                old(self).context.outputs_view(),
                r,
            ),
    {
        let ghost s0 = old(self).workflow.steps@[idx as int];
        let policy = match &self.workflow.steps[idx].retry {
            Option::Some(cfg) => RetryPolicy::from_config(cfg),
            Option::None => RetryPolicy::new_default(),
        };
        let attempts: u32 = if policy.max_attempts >= 1 {
            policy.max_attempts
        } else {
            1
        };
        let mut last: Result<Vec<(String, JsonValue)>, OrchestratorError> = self.attempt_step(idx);
        proof {
            lemma_same_names_same_provider(
                old(self).providers@,
                self.providers@,
                s0.config->Llm_0.provider@,
            );
        }
        let mut a: u32 = 1;
        while a < attempts && last.is_err()
            invariant
                1 <= a <= attempts,
                self.wf(),
                self.workflow == old(self).workflow,
                self.dag == old(self).dag,
                self.context == old(self).context,
                self.max_concurrency == old(self).max_concurrency,
                spec_same_provider_names(old(self).providers@, self.providers@),
                (idx as int) < self.workflow.steps@.len(),
                s0 == old(self).workflow.steps@[idx as int],
                spec_attempt_post(
                    s0,
                    old(self).providers@,
                    old(self).context.inputs_view(),
                    old(self).context.outputs_view(),
                    last,
                ),
            decreases attempts - a,
        {
            let ghost before = self.providers@;
            last = self.attempt_step(idx);
            proof {
                lemma_same_names_same_provider(
                    old(self).providers@,
                    before,
                    s0.config->Llm_0.provider@,
                );
                lemma_same_names_same_provider(
                    before,
                    self.providers@,
                    s0.config->Llm_0.provider@,
                );
            }
            a = a + 1;
        }
        last
    }

    /// Executes the workflow: every declared step reaches a terminal
    /// status, in the DAG's topological order (dependencies first, ties
    /// broken by declaration order), and gets a result; the
    /// execution as a whole always comes back with those results. A step
    /// whose condition is false is Skipped with no outputs; one whose
    /// condition does not evaluate is Failed, like any step whose
    /// attempts run out; the no-op step kinds complete with empty
    /// outputs; the unimplemented kinds fail; an LLM step completes with
    /// the published output shape when its registered provider answers,
    /// and fails when no provider of that name is registered. Each
    /// completed step's outputs stand published in the context under its
    /// id.
    #[verifier::rlimit(100)]
    #[verifier::spinoff_prover]
    pub fn execute(&mut self) -> (r: Result<ExecutionResults, OrchestratorError>)
        requires
            old(self).wf(),
            old(self).fresh(),
        ensures
            final(self).wf(),
            final(self).workflow == old(self).workflow,
            final(self).dag == old(self).dag,
            r is Ok,
            match r {
                Result::Ok(results) => {
                    let entries = results.entries@;
                    let n = old(self).workflow.steps@.len();
                    &&& entries.len() == n
                    &&& forall|k: int| 0 <= k < n
                        ==> #[trigger] entries[k].0@ == old(self).dag.order@[k]@
                    &&& forall|k: int| 0 <= k < n
                        ==> #[trigger] entries[k].1.step_id@ == entries[k].0@
                    &&& forall|k: int| 0 <= k < n
                        ==> spec_is_terminal(#[trigger] entries[k].1.status)
                    &&& forall|k: int| 0 <= k < n && (#[trigger] entries[k].1.status) is Skipped
                        ==> entries[k].1.outputs@.len() == 0 && entries[k].1.error is None
                    &&& forall|k: int| 0 <= k < n && (#[trigger] entries[k].1.status) is Completed
                        ==> entries[k].1.error is None
                    &&& forall|k: int| 0 <= k < n && (#[trigger] entries[k].1.status) is Failed
                        ==> entries[k].1.error is Some && entries[k].1.outputs@.len() == 0
                    &&& forall|k: int| 0 <= k < n ==> (match (#[trigger] old(self).step_at(
                        k,
                    ).condition) {
                        Option::Some(c) => {
                            &&& (c@ == "false"@ ==> entries[k].1.status is Skipped)
                            &&& (c@ == "true"@ ==> !(entries[k].1.status is Skipped)
                                && spec_dispatched_ok(old(self).step_at(k), entries[k].1))
                        },
                        Option::None => !(entries[k].1.status is Skipped)
                            && spec_dispatched_ok(old(self).step_at(k), entries[k].1),
                    })
                    &&& forall|k: int| 0 <= k < n
                        && ((#[trigger] old(self).step_at(k).step_type) is Embed
                            || old(self).step_at(k).step_type is VectorSearch)
                        && !(entries[k].1.status is Skipped)
                        ==> entries[k].1.status is Failed
                    &&& forall|k: int| 0 <= k < n
                        && ((#[trigger] old(self).step_at(k).step_type) is Transform
                            || old(self).step_at(k).step_type is Action
                            || old(self).step_at(k).step_type is Parallel
                            || old(self).step_at(k).step_type is Branch)
                        && entries[k].1.status is Completed
                        ==> entries[k].1.outputs@.len() == 0
                    &&& forall|k: int| 0 <= k < n
                        && (#[trigger] old(self).step_at(k).step_type) is Llm
                        && entries[k].1.status is Completed
                        ==> spec_is_llm_output_shape(
                            crate::json::jv_model_fields(entries[k].1.outputs@),
                            crate::strutil::strings_view(old(self).step_at(k).output@),
                        )
                    &&& forall|k: int| 0 <= k < n
                        && (#[trigger] old(self).step_at(k).step_type) is Llm
                        && !spec_has_provider(
                            old(self).providers@,
                            old(self).step_at(k).config->Llm_0.provider@,
                        )
                        && !(entries[k].1.status is Skipped)
                        ==> entries[k].1.status is Failed
                    &&& forall|k: int| 0 <= k < n && (#[trigger] entries[k].1.status) is Completed
                        ==> first_binding(final(self).context.outputs_view(), entries[k].0@)
                            == Option::Some(JsonSpec::Obj(
                                crate::json::jv_model_fields(entries[k].1.outputs@),
                            ))
                },
                Result::Err(_) => false,
            },
    {
        let n = self.dag.topo.len();
        let ghost steps0 = self.workflow.steps@;
        let ghost topo0 = self.dag.topo@;
        let ghost providers0 = self.providers@;
        let mut entries: Vec<(String, StepResult)> = Vec::new();
        let mut k: usize = 0;
        while k < n
            invariant
                0 <= k <= n,
                self.wf(),
                self.workflow == old(self).workflow,
                self.dag == old(self).dag,
                self.max_concurrency == old(self).max_concurrency,
                n == self.workflow.steps@.len(),
                n == self.dag.topo@.len(),
                steps0 == self.workflow.steps@,
                topo0 == self.dag.topo@,
                providers0 == old(self).providers@,
                spec_same_provider_names(providers0, self.providers@),
                entries@.len() == k,
                forall|c: int| 0 <= c < k
                    ==> #[trigger] entries@[c].0@ == self.dag.order@[c]@,
                forall|c: int| 0 <= c < k
                    ==> #[trigger] entries@[c].1.step_id@ == entries@[c].0@,
                forall|c: int| 0 <= c < k
                    ==> spec_is_terminal(#[trigger] entries@[c].1.status),
                forall|c: int| 0 <= c < k && (#[trigger] entries@[c].1.status) is Skipped
                    ==> entries@[c].1.outputs@.len() == 0 && entries@[c].1.error is None,
                forall|c: int| 0 <= c < k && (#[trigger] entries@[c].1.status) is Completed
                    ==> entries@[c].1.error is None,
                forall|c: int| 0 <= c < k && (#[trigger] entries@[c].1.status) is Failed
                    ==> entries@[c].1.error is Some && entries@[c].1.outputs@.len() == 0,
                forall|c: int| 0 <= c < k ==> (match (#[trigger] spec_step_at(
                    steps0,
                    topo0,
                    c,
                ).condition) {
                    Option::Some(cc) => {
                        &&& (cc@ == "false"@ ==> entries@[c].1.status is Skipped)
                        &&& (cc@ == "true"@ ==> !(entries@[c].1.status is Skipped)
                            && spec_dispatched_ok(spec_step_at(steps0, topo0, c), entries@[c].1))
                    },
                    Option::None => !(entries@[c].1.status is Skipped)
                        && spec_dispatched_ok(spec_step_at(steps0, topo0, c), entries@[c].1),
                }),
                forall|c: int| 0 <= c < k
                    && ((#[trigger] spec_step_at(steps0, topo0, c).step_type) is Embed
                        || spec_step_at(steps0, topo0, c).step_type is VectorSearch)
                    && !(entries@[c].1.status is Skipped)
                    ==> entries@[c].1.status is Failed,
                forall|c: int| 0 <= c < k
                    && ((#[trigger] spec_step_at(steps0, topo0, c).step_type) is Transform
                        || spec_step_at(steps0, topo0, c).step_type is Action
                        || spec_step_at(steps0, topo0, c).step_type is Parallel
                        || spec_step_at(steps0, topo0, c).step_type is Branch)
                    && entries@[c].1.status is Completed
                    ==> entries@[c].1.outputs@.len() == 0,
                forall|c: int| 0 <= c < k
                    && (#[trigger] spec_step_at(steps0, topo0, c).step_type) is Llm
                    && entries@[c].1.status is Completed
                    ==> spec_is_llm_output_shape(
                        crate::json::jv_model_fields(entries@[c].1.outputs@),
                        crate::strutil::strings_view(spec_step_at(steps0, topo0, c).output@),
                    ),
                forall|c: int| 0 <= c < k
                    && (#[trigger] spec_step_at(steps0, topo0, c).step_type) is Llm
                    && !spec_has_provider(
                        providers0,
                        spec_step_at(steps0, topo0, c).config->Llm_0.provider@,
                    )
                    && !(entries@[c].1.status is Skipped)
                    ==> entries@[c].1.status is Failed,
                forall|c: int| 0 <= c < k && (#[trigger] entries@[c].1.status) is Completed
                    ==> first_binding(self.context.outputs_view(), entries@[c].0@)
                        == Option::Some(JsonSpec::Obj(
                            crate::json::jv_model_fields(entries@[c].1.outputs@),
                        )),
                // every published output belongs to an already-processed step
                forall|j: int| 0 <= j < self.context.outputs_view().len()
                    ==> exists|c: int| 0 <= c < k
                        && #[trigger] self.context.outputs_view()[j].0
                            == self.dag.order@[c]@,
            decreases n - k,
        {
            let idx = self.dag.topo[k];
            let started = now_unix_millis();
            let ghost ctx0 = self.context;
            let step_id = self.workflow.steps[idx].id.clone();
            proof {
                assert(self.dag.order@[k as int]@
                    == self.dag.nodes@[self.dag.topo@[k as int] as int]@);
                assert(self.dag.nodes@[idx as int]@ == steps0[idx as int].id@);
            }

            // gate: evaluate the condition; a condition that does not
            // evaluate fails the step, not the run
            let mut skip = false;
            let mut cond_error: Option<RenderError> = None;
            let has_condition = self.workflow.steps[idx].condition.is_some();
            if has_condition {
                let cond = match &self.workflow.steps[idx].condition {
                    Option::Some(c) => c.clone(),
                    Option::None => {
                        proof {
                            assert(false);
                        }
                        String::new()
                    },
                };
                match self.context.evaluate_condition(cond.as_str()) {
                    Result::Ok(b) => {
                        skip = !b;
                        proof {
                            if cond@ == "false"@ {
                                proof_literal_false(cond@, self.context.inputs_view(),
                                    self.context.outputs_view());
                                assert(!b);
                            }
                            if cond@ == "true"@ {
                                proof_literal_true(cond@, self.context.inputs_view(),
                                    self.context.outputs_view());
                                assert(b);
                            }
                        }
                    },
                    Result::Err(e) => {
                        proof {
                            // a literal condition always evaluates
                            if cond@ == "false"@ {
                                proof_literal_false(cond@, self.context.inputs_view(),
                                    self.context.outputs_view());
                            }
                            if cond@ == "true"@ {
                                proof_literal_true(cond@, self.context.inputs_view(),
                                    self.context.outputs_view());
                            }
                            assert(cond@ != "false"@ && cond@ != "true"@);
                        }
                        cond_error = Some(e);
                    },
                }
            }

            match cond_error {
                Option::Some(e) => {
                    let mut m = copy_str("condition did not evaluate: ");
                    m.append(e.message().as_str());
                    let result = StepResult {
                        step_id: step_id.clone(),
                        status: StepStatus::Failed,
                        outputs: Vec::new(),
                        error: Some(m),
                        duration_ms: 0,
                    };
                    entries.push((step_id, result));
                },
                Option::None => {
                    if skip {
                        let result = StepResult {
                            step_id: step_id.clone(),
                            status: StepStatus::Skipped,
                            outputs: Vec::new(),
                            error: None,
                            duration_ms: 0,
                        };
                        entries.push((step_id, result));
                    } else {
                        let ghost names_before = self.providers@;
                        let attempt = self.run_step_attempts(idx);
                        proof {
                            lemma_same_names_same_provider(
                                providers0,
                                names_before,
                                spec_step_at(steps0, topo0, k as int).config->Llm_0.provider@,
                            );
                            lemma_same_names_same_provider(
                                names_before,
                                self.providers@,
                                spec_step_at(steps0, topo0, k as int).config->Llm_0.provider@,
                            );
                        }
                        let ended = now_unix_millis();
                        let duration_ms = elapsed_ms(started, ended);
                        match attempt {
                            Result::Ok(outputs) => {
                                // publish into the context, then record Completed
                                proof {
                                    lemma_binding_absent(self.context.outputs_view(),
                                        self.dag.order@, k as int, step_id@, self.dag,
                                        self.workflow.steps@);
                                }
                                let published = JsonValue::Obj(clone_entries(&outputs));
                                self.context.set_output(step_id.as_str(), published);
                                let result = StepResult {
                                    step_id: step_id.clone(),
                                    status: StepStatus::Completed,
                                    outputs,
                                    error: None,
                                    duration_ms,
                                };
                                entries.push((step_id, result));
                                proof {
                                    assert(self.dag.order@[k as int]@
                                        == self.dag.nodes@[self.dag.topo@[k as int] as int]@);
                                    assert(self.dag.nodes@[idx as int]@ == steps0[idx as int].id@);
                                    assert forall|j: int| 0 <= j < self.context.outputs_view().len()
                                        implies exists|c: int| 0 <= c < k + 1
                                            && #[trigger] self.context.outputs_view()[j].0
                                                == self.dag.order@[c]@ by {
                                        if j < ctx0.outputs_view().len() {
                                            let c = choose|c: int| 0 <= c < k
                                                && ctx0.outputs_view()[j].0 == self.dag.order@[c]@;
                                            assert(self.context.outputs_view()[j].0
                                                == self.dag.order@[c]@);
                                        } else {
                                            assert(self.context.outputs_view()[j].0
                                                == self.dag.order@[k as int]@);
                                        }
                                    }
                                    // the fresh publication binds the new id; older
                                    // bindings stay put
                                    let e_new = entries@[k as int];
                                    crate::json::lemma_first_binding_push_absent(
                                        ctx0.outputs_view(),
                                        e_new.0@,
                                        JsonSpec::Obj(crate::json::jv_model_fields(e_new.1.outputs@)),
                                    );
                                    assert forall|c: int|
                                        0 <= c < k && (#[trigger] entries@[c].1.status) is Completed
                                        implies first_binding(
                                            self.context.outputs_view(),
                                            entries@[c].0@,
                                        ) == Option::Some(JsonSpec::Obj(
                                            crate::json::jv_model_fields(entries@[c].1.outputs@),
                                        )) by {
                                        crate::json::lemma_first_binding_push_other(
                                            ctx0.outputs_view(),
                                            entries@[c].0@,
                                            (e_new.0@, JsonSpec::Obj(
                                                crate::json::jv_model_fields(e_new.1.outputs@),
                                            )),
                                        );
                                    }
                                }
                            },
                            Result::Err(e) => {
                                let result = StepResult {
                                    step_id: step_id.clone(),
                                    status: StepStatus::Failed,
                                    outputs: Vec::new(),
                                    error: Some(e.message()),
                                    duration_ms,
                                };
                                entries.push((step_id, result));
                            },
                        }
                    }
                },
            }
            proof {
                assert forall|j: int| 0 <= j < self.context.outputs_view().len()
                    implies exists|c: int| 0 <= c < k + 1
                        && #[trigger] self.context.outputs_view()[j].0
                            == self.dag.order@[c]@ by {
                    if j < ctx0.outputs_view().len() {
                        let c = choose|c: int| 0 <= c < k
                            && ctx0.outputs_view()[j].0 == self.dag.order@[c]@;
                        assert(self.context.outputs_view()[j].0 == self.dag.order@[c]@);
                    } else {
                        assert(self.context.outputs_view()[j].0
                            == self.dag.order@[k as int]@);
                    }
                }
            }
            k = k + 1;
        }
        Ok(ExecutionResults { entries })
    }
}

/// Structural copies of output entries, model for model.
#[verifier::spinoff_prover]
fn clone_entries(entries: &Vec<(String, JsonValue)>) -> (r: Vec<(String, JsonValue)>)
    ensures
        r@.len() == entries@.len(),
        crate::json::jv_model_fields(r@) == crate::json::jv_model_fields(entries@),
{
    let n = entries.len();
    let mut out: Vec<(String, JsonValue)> = Vec::new();
    let mut i: usize = 0;
    while i < n
        invariant
            0 <= i <= n,
            n == entries@.len(),
            out@.len() == i,
            forall|k: int| 0 <= k < i ==> #[trigger] out@[k].0@ == entries@[k].0@
                && crate::json::jv_model(out@[k].1) == crate::json::jv_model(entries@[k].1),
        decreases n - i,
    {
        let key = entries[i].0.clone();
        let val = entries[i].1.clone();
        out.push((key, val));
        proof {
            assert(out@[i as int].0@ == entries@[i as int].0@);
            assert(crate::json::jv_model(out@[i as int].1)
                == crate::json::jv_model(entries@[i as int].1));
        }
        i = i + 1;
    }
    proof {
        broadcast use crate::json::lemma_jv_model_fields_len, crate::json::lemma_jv_model_fields_index;
        assert(crate::json::jv_model_fields(out@) =~= crate::json::jv_model_fields(entries@));
    }
    out
}

/// The completion request an LLM step hands its provider: the config's
/// model and knobs, carrying the rendered prompt.
pub fn build_completion_request(cfg: &LlmStepConfig, rendered_prompt: String) -> (r: CompletionRequest)
    ensures
        r.prompt@ == rendered_prompt@,
        r.model@ == cfg.model@,
        r.temperature_milli == cfg.temperature_milli,
        r.max_tokens == cfg.max_tokens,
        (r.system is Some <==> cfg.system is Some),
        (cfg.system matches Some(sys) ==> r.system matches Some(s2) && s2@ == sys@),
{
    CompletionRequest {
        model: cfg.model.clone(),
        prompt: rendered_prompt,
        system: crate::audit::models::clone_opt_string(&cfg.system),
        temperature_milli: cfg.temperature_milli,
        max_tokens: cfg.max_tokens,
        extra: clone_entries(&cfg.extra),
    }
}

/// The whole response as a JSON object for the `_response` output.
fn response_to_value(resp: &CompletionResponse) -> (r: JsonValue)
    ensures
        r@ == spec_response_json(resp.text@, resp.model@, resp.tokens_used),
{
    let mut fields: Vec<(String, JsonValue)> = Vec::new();
    fields.push((copy_str("text"), JsonValue::Str(resp.text.clone())));
    fields.push((copy_str("model"), JsonValue::Str(resp.model.clone())));
    match resp.tokens_used {
        Option::Some(t) => {
            fields.push((copy_str("tokens_used"), JsonValue::Int(t as i64)));
        },
        Option::None => {},
    }
    let r = JsonValue::Obj(fields);
    proof {
        broadcast use crate::json::lemma_jv_model_fields_len, crate::json::lemma_jv_model_fields_index;
        match resp.tokens_used {
            Option::Some(t) => {
                assert(crate::json::jv_model_fields(r->Obj_0@) =~= seq![
                    ("text"@, JsonSpec::Str(resp.text@)),
                    ("model"@, JsonSpec::Str(resp.model@)),
                    ("tokens_used"@, JsonSpec::Int(t as int)),
                ]);
            },
            Option::None => {
                assert(crate::json::jv_model_fields(r->Obj_0@) =~= seq![
                    ("text"@, JsonSpec::Str(resp.text@)),
                    ("model"@, JsonSpec::Str(resp.model@)),
                ]);
            },
        }
    }
    r
}

/// Shapes a provider's answer into a completed LLM step's outputs: the
/// answer's text under the first declared output name, the whole answer
/// under `_response`.
pub fn shape_llm_outputs(output_names: &Vec<String>, response: &CompletionResponse)
    -> (r: Vec<(String, JsonValue)>)
    ensures
        crate::json::jv_model_fields(r@) == spec_llm_outputs(
            crate::strutil::strings_view(output_names@),
            response.text@,
            spec_response_json(response.text@, response.model@, response.tokens_used),
        ),
{
    let mut outputs: Vec<(String, JsonValue)> = Vec::new();
    if output_names.len() > 0 {
        outputs.push((output_names[0].clone(), JsonValue::Str(response.text.clone())));
    }
    outputs.push((copy_str("_response"), response_to_value(response)));
    proof {
        broadcast use crate::json::lemma_jv_model_fields_len, crate::json::lemma_jv_model_fields_index;
        assert(crate::json::jv_model_fields(outputs@) =~= spec_llm_outputs(
            crate::strutil::strings_view(output_names@),
            response.text@,
            spec_response_json(response.text@, response.model@, response.tokens_used),
        ));
    }
    outputs
}

/// The literal `false` evaluates to false under any context.
proof fn proof_literal_false(
    c: Seq<char>,
    ins: Seq<(Seq<char>, crate::json::JsonSpec)>,
    outs: Seq<(Seq<char>, crate::json::JsonSpec)>,
)
    requires
        c == "false"@,
    ensures
        crate::context::spec_eval_condition(c, ins, outs)
            == Result::<bool, crate::context::RenderErrSpec>::Ok(false),
{
    proof_true_false_distinct();
}

/// The literal `true` evaluates to true under any context.
proof fn proof_literal_true(
    c: Seq<char>,
    ins: Seq<(Seq<char>, crate::json::JsonSpec)>,
    outs: Seq<(Seq<char>, crate::json::JsonSpec)>,
)
    requires
        c == "true"@,
    ensures
        crate::context::spec_eval_condition(c, ins, outs)
            == Result::<bool, crate::context::RenderErrSpec>::Ok(true),
{
    proof_true_false_distinct();
}

/// The words `true` and `false` differ.
proof fn proof_true_false_distinct()
    ensures
        "true"@ != "false"@,
{
    reveal_strlit("true");
    reveal_strlit("false");
    assert("true"@.len() == 4);
    assert("false"@.len() == 5);
}

/// A step id not yet dispatched has no binding in the output table.
proof fn lemma_binding_absent(
    outs: Seq<(Seq<char>, crate::json::JsonSpec)>,
    order: Seq<String>,
    k: int,
    id: Seq<char>,
    d: WorkflowDAG,
    steps: Seq<Step>,
)
    requires
        d.wf(),
        d.matches(steps),
        spec_is_topo_order(steps, d.order_views()),
        d.order@ == order,
        0 <= k < order.len(),
        order.len() == steps.len(),
        id == steps[d.topo@[k] as int].id@,
        forall|j: int| 0 <= j < outs.len()
            ==> exists|c: int| 0 <= c < k && #[trigger] outs[j].0 == order[c]@,
    ensures
        first_binding(outs, id) is None,
    decreases outs.len(),
{
    assert(order[k]@ == d.order_views()[k]);
    assert(d.order@[k]@ == d.nodes@[d.topo@[k] as int]@);
    assert(id == order[k]@);
    if outs.len() > 0 {
        if outs[0].0 == id {
            let c = choose|c: int| 0 <= c < k && outs[0].0 == order[c]@;
            assert(d.order_views()[c] == order[c]@);
            assert(d.order_views()[c] == d.order_views()[k]);
            assert(false);
        } else {
            assert forall|j: int| 0 <= j < outs.drop_first().len()
                implies exists|c: int| 0 <= c < k
                    && #[trigger] outs.drop_first()[j].0 == order[c]@ by {
                assert(outs.drop_first()[j] == outs[j + 1]);
                let c = choose|c: int| 0 <= c < k && outs[j + 1].0 == order[c]@;
                assert(outs.drop_first()[j].0 == order[c]@);
            }
            lemma_binding_absent(outs.drop_first(), order, k, id, d, steps);
        }
    }
}

} // verus!
