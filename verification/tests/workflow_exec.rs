//! Workflow model, DAG construction, rendering, retry and the executor.

use llm_orchestrator::context::ExecutionContext;
use llm_orchestrator::dag::dag_from_workflow;
use llm_orchestrator::errors::OrchestratorError;
use llm_orchestrator::executor::{StepStatus, WorkflowExecutor};
use llm_orchestrator::json::JsonValue;
use llm_orchestrator::providers::{
    CompletionRequest, CompletionResponse, LLMProvider, ProviderError,
};
use llm_orchestrator::auth::jwt::JwtAuth;
use llm_orchestrator::retry::RetryPolicy;
use llm_orchestrator::workflow::{
    ActionConfig, BackoffStrategy, LlmStepConfig, RetryConfig, Step, StepConfig, StepType,
    TransformConfig, Workflow,
};

/// A provider that never answers; it stands in where no LLM step runs.
struct NullProvider;

impl LLMProvider for NullProvider {
    fn name(&self) -> String {
        "null".to_string()
    }
    fn complete(&mut self, _request: &CompletionRequest) -> Result<CompletionResponse, ProviderError> {
        Err(ProviderError::Unknown("no provider".to_string()))
    }
    fn health_check(&mut self) -> Result<(), ProviderError> {
        Ok(())
    }
}

/// A provider that records the prompt it was handed and answers `hi`.
struct RecordingProvider {
    last_prompt: Option<String>,
    calls: usize,
}

impl LLMProvider for RecordingProvider {
    fn name(&self) -> String {
        "mock".to_string()
    }
    fn complete(&mut self, request: &CompletionRequest) -> Result<CompletionResponse, ProviderError> {
        self.last_prompt = Some(request.prompt.clone());
        self.calls += 1;
        Ok(CompletionResponse {
            text: "hi".to_string(),
            model: request.model.clone(),
            tokens_used: Some(2),
            metadata: Vec::new(),
        })
    }
    fn health_check(&mut self) -> Result<(), ProviderError> {
        Ok(())
    }
}

fn transform_step(id: &str, depends_on: Vec<&str>) -> Step {
    Step {
        id: id.to_string(),
        step_type: StepType::Transform,
        depends_on: depends_on.into_iter().map(|s| s.to_string()).collect(),
        condition: None,
        config: StepConfig::Transform(TransformConfig {
            function: "identity".to_string(),
            inputs: vec![],
            params: vec![],
        }),
        output: vec![],
        timeout_seconds: None,
        retry: None,
    }
}

fn workflow_of(steps: Vec<Step>) -> Workflow {
    Workflow {
        id: "00000000-0000-4000-8000-000000000001".to_string(),
        name: "test-workflow".to_string(),
        version: "1.0".to_string(),
        description: Some("Test workflow".to_string()),
        timeout_seconds: None,
        steps,
        metadata: vec![],
    }
}

fn create_test_workflow() -> Workflow {
    workflow_of(vec![
        Step {
            id: "step1".to_string(),
            step_type: StepType::Llm,
            depends_on: vec![],
            condition: None,
            config: StepConfig::Llm(LlmStepConfig {
                provider: "openai".to_string(),
                model: "gpt-4".to_string(),
                prompt: "Test prompt".to_string(),
                temperature_milli: Some(700),
                max_tokens: Some(100),
                system: None,
                stream: false,
                extra: vec![],
            }),
            output: vec!["result".to_string()],
            timeout_seconds: None,
            retry: None,
        },
        transform_step("step2", vec!["step1"]),
    ])
}

#[test]
fn test_executor_creation() {
    let workflow = create_test_workflow();
    let executor = WorkflowExecutor::<NullProvider>::new(workflow, vec![]);
    assert!(executor.is_ok());
}

#[test]
fn test_executor_with_max_concurrency() {
    let workflow = create_test_workflow();
    let executor = WorkflowExecutor::<NullProvider>::new(workflow, vec![])
        .unwrap()
        .with_max_concurrency(5);
    assert_eq!(executor.max_concurrency, 5);
}

#[test]
fn test_retry_policy_from_config() {
    let cfg = RetryConfig {
        max_attempts: 5,
        backoff: BackoffStrategy::Exponential,
        initial_delay_ms: 200,
        max_delay_ms: 10000,
    };
    let policy = RetryPolicy::from_config(&cfg);
    assert_eq!(policy.max_attempts, 5);
    assert_eq!(policy.initial_delay_ms, 200);
    assert_eq!(policy.multiplier, 2);
    assert_eq!(policy.max_delay_ms, 10000);
}

#[test]
fn test_transform_step_execution() {
    let workflow = workflow_of(vec![transform_step("transform1", vec![])]);
    let mut executor = WorkflowExecutor::<NullProvider>::new(workflow, vec![]).unwrap();

    let results = executor.execute().unwrap();

    assert_eq!(results.len(), 1);
    assert_eq!(results.get("transform1").unwrap().status, StepStatus::Completed);
}

#[test]
fn test_step_with_condition_skip() {
    let step = Step {
        id: "conditional".to_string(),
        step_type: StepType::Action,
        depends_on: vec![],
        condition: Some("false".to_string()),
        config: StepConfig::Action(ActionConfig {
            action: "test".to_string(),
            params: vec![],
        }),
        output: vec![],
        timeout_seconds: None,
        retry: None,
    };
    let workflow = workflow_of(vec![step]);
    let mut executor = WorkflowExecutor::<NullProvider>::new(workflow, vec![]).unwrap();

    let results = executor.execute().unwrap();
    assert_eq!(results.get("conditional").unwrap().status, StepStatus::Skipped);
}

#[test]
fn test_empty_workflow_executes_to_empty_results() {
    let workflow = workflow_of(vec![]);
    let mut executor = WorkflowExecutor::<NullProvider>::new(workflow, vec![]).unwrap();
    let results = executor.execute().unwrap();
    assert!(results.is_empty());
}

#[test]
fn test_single_step_workflow_has_one_result() {
    let workflow = workflow_of(vec![transform_step("only", vec![])]);
    let mut executor = WorkflowExecutor::<NullProvider>::new(workflow, vec![]).unwrap();
    let results = executor.execute().unwrap();
    assert_eq!(results.len(), 1);
    assert_eq!(results.get("only").unwrap().status, StepStatus::Completed);
}

#[test]
fn test_linear_three_step_workflow() {
    let workflow = workflow_of(vec![
        transform_step("a", vec![]),
        transform_step("b", vec!["a"]),
        transform_step("c", vec!["b"]),
    ]);
    let mut executor = WorkflowExecutor::<NullProvider>::new(workflow, vec![]).unwrap();
    let results = executor.execute().unwrap();

    assert_eq!(results.len(), 3);
    for id in ["a", "b", "c"] {
        assert_eq!(results.get(id).unwrap().status, StepStatus::Completed);
    }
    // dispatch order follows the dependency chain
    assert_eq!(results.entries[0].0, "a");
    assert_eq!(results.entries[1].0, "b");
    assert_eq!(results.entries[2].0, "c");
}

#[test]
fn test_cycle_detection() {
    let workflow = workflow_of(vec![
        transform_step("x", vec!["y"]),
        transform_step("y", vec!["x"]),
    ]);
    let result = dag_from_workflow(&workflow);
    match result {
        Err(OrchestratorError::CycleDetected(path)) => {
            assert!(path.len() >= 2);
            assert_eq!(path.first(), path.last());
            assert!(path.contains(&"x".to_string()));
            assert!(path.contains(&"y".to_string()));
        }
        other => panic!("expected a cycle, got {:?}", other.map(|_| ())),
    }
}

#[test]
fn test_self_loop_is_a_cycle() {
    let workflow = workflow_of(vec![transform_step("solo", vec!["solo"])]);
    let result = dag_from_workflow(&workflow);
    match result {
        Err(OrchestratorError::CycleDetected(path)) => {
            assert_eq!(path, vec!["solo".to_string(), "solo".to_string()]);
        }
        other => panic!("expected a cycle, got {:?}", other.map(|_| ())),
    }
}

#[test]
fn test_duplicate_step_id_rejected() {
    let workflow = workflow_of(vec![
        transform_step("dup", vec![]),
        transform_step("dup", vec![]),
    ]);
    assert!(workflow.validate().is_err());
    assert!(matches!(
        dag_from_workflow(&workflow),
        Err(OrchestratorError::InvalidDag(_))
    ));
}

#[test]
fn test_unknown_dependency_rejected() {
    let workflow = workflow_of(vec![transform_step("a", vec!["ghost"])]);
    assert!(workflow.validate().is_err());
    assert!(matches!(
        dag_from_workflow(&workflow),
        Err(OrchestratorError::InvalidDag(_))
    ));
}

#[test]
fn test_empty_name_rejected() {
    let mut workflow = workflow_of(vec![transform_step("a", vec![])]);
    workflow.name = String::new();
    assert!(matches!(
        workflow.validate(),
        Err(OrchestratorError::Validation(_))
    ));
}

#[test]
fn test_topological_order_respects_edges() {
    let workflow = workflow_of(vec![
        transform_step("d", vec!["b", "c"]),
        transform_step("b", vec!["a"]),
        transform_step("c", vec!["a"]),
        transform_step("a", vec![]),
    ]);
    let dag = dag_from_workflow(&workflow).unwrap();
    let order = dag.execution_order();
    let pos = |id: &str| order.iter().position(|x| x == id).unwrap();
    assert_eq!(order.len(), 4);
    assert!(pos("a") < pos("b"));
    assert!(pos("a") < pos("c"));
    assert!(pos("b") < pos("d"));
    assert!(pos("c") < pos("d"));
}

#[test]
fn test_condition_skip_does_not_stop_dependents() {
    let mut skipped = transform_step("skipped", vec![]);
    skipped.condition = Some("false".to_string());
    let dependent = transform_step("dependent", vec!["skipped"]);
    let workflow = workflow_of(vec![skipped, dependent]);
    let mut executor = WorkflowExecutor::<NullProvider>::new(workflow, vec![]).unwrap();
    let results = executor.execute().unwrap();

    let s = results.get("skipped").unwrap();
    assert_eq!(s.status, StepStatus::Skipped);
    assert!(s.outputs.is_empty());
    assert_eq!(results.get("dependent").unwrap().status, StepStatus::Completed);
}

#[test]
fn test_llm_step_with_registered_provider() {
    let llm = Step {
        id: "greet".to_string(),
        step_type: StepType::Llm,
        depends_on: vec![],
        condition: None,
        config: StepConfig::Llm(LlmStepConfig {
            provider: "mock".to_string(),
            model: "test-model".to_string(),
            prompt: "Hello {{ inputs.name }}".to_string(),
            temperature_milli: None,
            max_tokens: None,
            system: None,
            stream: false,
            extra: vec![],
        }),
        output: vec!["greeting".to_string()],
        timeout_seconds: None,
        retry: None,
    };
    let workflow = workflow_of(vec![llm]);
    let inputs = vec![("name".to_string(), JsonValue::Str("World".to_string()))];
    let mut executor = WorkflowExecutor::new(workflow, inputs)
        .unwrap()
        .with_provider(
            "mock".to_string(),
            RecordingProvider { last_prompt: None, calls: 0 },
        );

    let results = executor.execute().unwrap();

    assert_eq!(
        executor.providers[0].1.last_prompt,
        Some("Hello World".to_string())
    );
    let r = results.get("greet").unwrap();
    assert_eq!(r.status, StepStatus::Completed);
    let text = r
        .outputs
        .iter()
        .find(|(k, _)| k == "greeting")
        .map(|(_, v)| v.clone());
    match text {
        Some(JsonValue::Str(s)) => assert_eq!(s, "hi"),
        other => panic!("unexpected output {:?}", other),
    }
    assert!(r.outputs.iter().any(|(k, _)| k == "_response"));
}

#[test]
fn test_unimplemented_step_kinds_fail() {
    let embed = Step {
        id: "embed".to_string(),
        step_type: StepType::Embed,
        depends_on: vec![],
        condition: None,
        config: StepConfig::Embed(llm_orchestrator::workflow::EmbedConfig {
            provider: "openai".to_string(),
            model: "embedding".to_string(),
            input: "text".to_string(),
        }),
        output: vec![],
        timeout_seconds: None,
        retry: None,
    };
    let workflow = workflow_of(vec![embed]);
    let mut executor = WorkflowExecutor::<NullProvider>::new(workflow, vec![]).unwrap();
    let results = executor.execute().unwrap();
    let r = results.get("embed").unwrap();
    assert_eq!(r.status, StepStatus::Failed);
    assert!(r.error.is_some());
}

#[test]
fn test_max_concurrency_one_matches_topological_order() {
    let workflow = workflow_of(vec![
        transform_step("first", vec![]),
        transform_step("second", vec!["first"]),
    ]);
    let mut executor = WorkflowExecutor::<NullProvider>::new(workflow, vec![])
        .unwrap()
        .with_max_concurrency(1);
    let results = executor.execute().unwrap();
    assert_eq!(results.entries[0].0, "first");
    assert_eq!(results.entries[1].0, "second");
}

#[test]
fn test_max_concurrency_zero_means_unbounded() {
    let workflow = workflow_of(vec![
        transform_step("first", vec![]),
        transform_step("second", vec![]),
    ]);
    let mut executor = WorkflowExecutor::<NullProvider>::new(workflow, vec![])
        .unwrap()
        .with_max_concurrency(0);
    let results = executor.execute().unwrap();
    assert_eq!(results.len(), 2);
    assert_eq!(results.get("first").unwrap().status, StepStatus::Completed);
    assert_eq!(results.get("second").unwrap().status, StepStatus::Completed);
}

#[test]
fn test_retry_single_attempt_never_sleeps() {
    let policy = RetryPolicy::new(1, 100, 2, 30000);
    let schedule = policy.delay_schedule_ms();
    assert!(schedule.is_empty());
}

#[test]
fn test_retry_exponential_delays_capped() {
    let policy = RetryPolicy::new(6, 100, 2, 800);
    let schedule = policy.delay_schedule_ms();
    assert_eq!(schedule, vec![100, 200, 400, 800, 800]);
}

#[test]
fn test_retry_constant_delays() {
    let cfg = RetryConfig {
        max_attempts: 4,
        backoff: BackoffStrategy::Constant,
        initial_delay_ms: 250,
        max_delay_ms: 30000,
    };
    let policy = RetryPolicy::from_config(&cfg);
    assert_eq!(policy.delay_schedule_ms(), vec![250, 250, 250]);
}

#[test]
fn test_default_retry_policy() {
    let policy = RetryPolicy::new_default();
    assert_eq!(policy.max_attempts, 3);
    assert_eq!(policy.initial_delay_ms, 100);
    assert_eq!(policy.multiplier, 2);
    assert_eq!(policy.max_delay_ms, 30000);
}

#[test]
fn test_failed_provider_is_retried_up_to_max_attempts() {
    struct FailingProvider {
        calls: usize,
    }
    impl LLMProvider for FailingProvider {
        fn name(&self) -> String {
            "failing".to_string()
        }
        fn complete(&mut self, _r: &CompletionRequest) -> Result<CompletionResponse, ProviderError> {
            self.calls += 1;
            Err(ProviderError::RateLimitExceeded)
        }
        fn health_check(&mut self) -> Result<(), ProviderError> {
            Ok(())
        }
    }
    let llm = Step {
        id: "flaky".to_string(),
        step_type: StepType::Llm,
        depends_on: vec![],
        condition: None,
        config: StepConfig::Llm(LlmStepConfig {
            provider: "failing".to_string(),
            model: "m".to_string(),
            prompt: "p".to_string(),
            temperature_milli: None,
            max_tokens: None,
            system: None,
            stream: false,
            extra: vec![],
        }),
        output: vec![],
        timeout_seconds: None,
        retry: Some(RetryConfig {
            max_attempts: 2,
            backoff: BackoffStrategy::Constant,
            initial_delay_ms: 0,
            max_delay_ms: 0,
        }),
    };
    let workflow = workflow_of(vec![llm]);
    let mut executor = WorkflowExecutor::new(workflow, vec![])
        .unwrap()
        .with_provider("failing".to_string(), FailingProvider { calls: 0 });
    let results = executor.execute().unwrap();
    assert_eq!(results.get("flaky").unwrap().status, StepStatus::Failed);
    assert_eq!(executor.providers[0].1.calls, 2);
}

// --- context ---

#[test]
fn test_render_simple_input() {
    let ctx = ExecutionContext::new(vec![(
        "name".to_string(),
        JsonValue::Str("World".to_string()),
    )]);
    assert_eq!(ctx.render_template("Hello {{ inputs.name }}!").unwrap(), "Hello World!");
}

#[test]
fn test_render_nested_field() {
    let ctx = ExecutionContext::new(vec![(
        "nested".to_string(),
        JsonValue::Obj(vec![(
            "key1".to_string(),
            JsonValue::Str("value1".to_string()),
        )]),
    )]);
    assert_eq!(
        ctx.render_template("Key1 is {{ inputs.nested.key1 }}").unwrap(),
        "Key1 is value1"
    );
}

#[test]
fn test_render_integer_and_bool() {
    let ctx = ExecutionContext::new(vec![
        ("count".to_string(), JsonValue::Int(42)),
        ("neg".to_string(), JsonValue::Int(-7)),
        ("flag".to_string(), JsonValue::Bool(true)),
    ]);
    assert_eq!(
        ctx.render_template("{{ inputs.count }}/{{ inputs.neg }}/{{ inputs.flag }}").unwrap(),
        "42/-7/true"
    );
}

#[test]
fn test_render_output_lookup() {
    let mut ctx = ExecutionContext::new(vec![]);
    ctx.set_output(
        "step1",
        JsonValue::Obj(vec![("text".to_string(), JsonValue::Str("done".to_string()))]),
    );
    assert_eq!(
        ctx.render_template("{{ outputs.step1.text }}").unwrap(),
        "done"
    );
}

#[test]
fn test_render_unknown_variable_is_an_error() {
    let ctx = ExecutionContext::new(vec![]);
    assert!(ctx.render_template("{{ inputs.absent }}").is_err());
    assert!(ctx.render_template("{{ elsewhere.thing }}").is_err());
}

#[test]
fn test_render_unclosed_placeholder_is_an_error() {
    let ctx = ExecutionContext::new(vec![]);
    assert!(ctx.render_template("broken {{ inputs.name").is_err());
}

#[test]
fn test_render_literal_passthrough() {
    let ctx = ExecutionContext::new(vec![]);
    assert_eq!(ctx.render_template("plain text, no braces").unwrap(), "plain text, no braces");
}

#[test]
fn test_render_non_scalar_is_an_error() {
    let ctx = ExecutionContext::new(vec![(
        "blob".to_string(),
        JsonValue::Obj(vec![("k".to_string(), JsonValue::Null)]),
    )]);
    assert!(ctx.render_template("{{ inputs.blob }}").is_err());
}

#[test]
fn test_evaluate_condition_literals() {
    let ctx = ExecutionContext::new(vec![]);
    assert_eq!(ctx.evaluate_condition("true").unwrap(), true);
    assert_eq!(ctx.evaluate_condition("false").unwrap(), false);
    assert!(ctx.evaluate_condition("maybe").is_err());
}

#[test]
fn test_evaluate_condition_from_template() {
    let ctx = ExecutionContext::new(vec![(
        "flag".to_string(),
        JsonValue::Bool(false),
    )]);
    assert_eq!(ctx.evaluate_condition("{{ inputs.flag }}").unwrap(), false);
}

#[test]
fn test_single_attempt_calls_provider_once() {
    struct CountingProvider {
        calls: usize,
    }
    impl LLMProvider for CountingProvider {
        fn name(&self) -> String {
            "counting".to_string()
        }
        fn complete(&mut self, _r: &CompletionRequest) -> Result<CompletionResponse, ProviderError> {
            self.calls += 1;
            Err(ProviderError::Timeout)
        }
        fn health_check(&mut self) -> Result<(), ProviderError> {
            Ok(())
        }
    }
    let llm = Step {
        id: "once".to_string(),
        step_type: StepType::Llm,
        depends_on: vec![],
        condition: None,
        config: StepConfig::Llm(LlmStepConfig {
            provider: "counting".to_string(),
            model: "m".to_string(),
            prompt: "p".to_string(),
            temperature_milli: None,
            max_tokens: None,
            system: None,
            stream: false,
            extra: vec![],
        }),
        output: vec![],
        timeout_seconds: None,
        retry: Some(RetryConfig {
            max_attempts: 1,
            backoff: BackoffStrategy::Constant,
            initial_delay_ms: 100,
            max_delay_ms: 100,
        }),
    };
    let workflow = workflow_of(vec![llm]);
    let mut executor = WorkflowExecutor::new(workflow, vec![])
        .unwrap()
        .with_provider("counting".to_string(), CountingProvider { calls: 0 });
    let results = executor.execute().unwrap();
    assert_eq!(results.get("once").unwrap().status, StepStatus::Failed);
    assert_eq!(executor.providers[0].1.calls, 1);
}

#[test]
fn test_ready_steps_dispatch_in_declaration_order() {
    // two independent steps: the tie among ready steps breaks by
    // declaration order
    let workflow = workflow_of(vec![
        transform_step("later", vec![]),
        transform_step("earlier", vec![]),
    ]);
    let mut executor = WorkflowExecutor::<NullProvider>::new(workflow, vec![]).unwrap();
    let results = executor.execute().unwrap();
    assert_eq!(results.entries[0].0, "later");
    assert_eq!(results.entries[1].0, "earlier");
}

#[test]
fn test_unevaluable_condition_fails_the_step_not_the_run() {
    let mut bad = transform_step("gated", vec![]);
    bad.condition = Some("{{ inputs.absent }}".to_string());
    let after = transform_step("after", vec!["gated"]);
    let workflow = workflow_of(vec![bad, after]);
    let mut executor = WorkflowExecutor::<NullProvider>::new(workflow, vec![]).unwrap();

    let results = executor.execute().unwrap();
    let gated = results.get("gated").unwrap();
    assert_eq!(gated.status, StepStatus::Failed);
    assert!(gated.error.is_some());
    assert!(gated.outputs.is_empty());
    // the failure does not abort the workflow: downstream still runs
    assert_eq!(results.get("after").unwrap().status, StepStatus::Completed);
}

#[test]
fn test_failed_step_does_not_abort_downstream() {
    let embed = Step {
        id: "broken".to_string(),
        step_type: StepType::Embed,
        depends_on: vec![],
        condition: None,
        config: StepConfig::Embed(llm_orchestrator::workflow::EmbedConfig {
            provider: "openai".to_string(),
            model: "embedding".to_string(),
            input: "text".to_string(),
        }),
        output: vec![],
        timeout_seconds: None,
        retry: None,
    };
    let after = transform_step("after", vec!["broken"]);
    let workflow = workflow_of(vec![embed, after]);
    let mut executor = WorkflowExecutor::<NullProvider>::new(workflow, vec![]).unwrap();
    let results = executor.execute().unwrap();
    assert_eq!(results.get("broken").unwrap().status, StepStatus::Failed);
    assert_eq!(results.get("after").unwrap().status, StepStatus::Completed);
}

#[test]
fn test_llm_step_without_provider_fails() {
    let llm = Step {
        id: "orphan".to_string(),
        step_type: StepType::Llm,
        depends_on: vec![],
        condition: None,
        config: StepConfig::Llm(LlmStepConfig {
            provider: "nobody".to_string(),
            model: "m".to_string(),
            prompt: "p".to_string(),
            temperature_milli: None,
            max_tokens: None,
            system: None,
            stream: false,
            extra: vec![],
        }),
        output: vec![],
        timeout_seconds: None,
        retry: Some(RetryConfig {
            max_attempts: 1,
            backoff: BackoffStrategy::Constant,
            initial_delay_ms: 0,
            max_delay_ms: 0,
        }),
    };
    let workflow = workflow_of(vec![llm]);
    let mut executor = WorkflowExecutor::<NullProvider>::new(workflow, vec![]).unwrap();
    let results = executor.execute().unwrap();
    let r = results.get("orphan").unwrap();
    assert_eq!(r.status, StepStatus::Failed);
    assert!(r.error.is_some());
}

#[test]
fn test_refresh_of_access_token_is_rejected() {
    let jwt_auth = JwtAuth::new(b"test-secret-key-at-least-32-bytes-long".to_vec());
    let access = jwt_auth
        .generate_token("user123", vec!["viewer".to_string()])
        .unwrap();
    assert!(jwt_auth.refresh_access_token(&access, vec!["viewer".to_string()]).is_err());
}
