//! Adapters: disable/enable behaviour and the graph navigator.

use llm_orchestrator::adapters::connector_hub::{ConnectorHubAdapter, RoutingConfig};
use llm_orchestrator::adapters::data_vault::DataVaultAdapter;
use llm_orchestrator::adapters::memory_graph::MemoryGraphAdapter;
use llm_orchestrator::adapters::router_l2::{GraphNavigator, RouterL2Adapter};
use llm_orchestrator::benchmarks::{
    ContextTemplateRenderingBenchmark, EvaluationFeedbackLoopBenchmark,
    MultiModelRoutingBenchmark, ParallelStepCoordinationBenchmark,
    WorkflowDagConstructionBenchmark, WorkflowValidationBenchmark,
};

#[test]
fn connector_hub_test_adapter_disabled_by_default() {
    let adapter = ConnectorHubAdapter::default();
    assert!(!adapter.is_enabled());
}

#[test]
fn connector_hub_test_adapter_enabled_with_endpoint() {
    let adapter = ConnectorHubAdapter::new("http://localhost:8081".to_string());
    assert!(adapter.is_enabled());
    assert_eq!(adapter.endpoint(), "http://localhost:8081");
}

#[test]
fn test_default_routing_config() {
    let config = RoutingConfig::default();
    assert_eq!(config.default_provider, "openai");
    assert!(config.failover_enabled);
}

#[test]
fn test_get_route_when_disabled() {
    let adapter = ConnectorHubAdapter::disabled();
    let route = adapter.get_route("step1", None, "gpt-4");
    assert!(route.is_none());
}

#[test]
fn test_get_route_with_hint() {
    let adapter = ConnectorHubAdapter::new("http://localhost:8081".to_string());
    let route = adapter.get_route("step1", Some("mistral"), "mistral-large");
    assert!(route.is_some());
    assert_eq!(route.unwrap().provider, "mistral");
}

#[test]
fn data_vault_test_adapter_disabled_by_default() {
    let adapter = DataVaultAdapter::default();
    assert!(!adapter.is_enabled());
}

#[test]
fn data_vault_test_adapter_enabled_with_endpoint() {
    let adapter = DataVaultAdapter::new("http://localhost:8082".to_string());
    assert!(adapter.is_enabled());
    assert_eq!(adapter.endpoint(), "http://localhost:8082");
}

#[test]
fn test_store_when_disabled() {
    let adapter = DataVaultAdapter::disabled();
    let result = adapter.store_artifact(
        "00000000-0000-4000-8000-000000000002",
        "step1",
        "test.txt",
        &b"data".to_vec(),
        "text/plain",
    );
    assert!(!result.success);
    assert!(result.error.is_some());
}

#[test]
fn test_store_when_enabled() {
    let adapter = DataVaultAdapter::new("http://localhost:8082".to_string());
    let result = adapter.store_artifact(
        "00000000-0000-4000-8000-000000000002",
        "step1",
        "test.txt",
        &b"data".to_vec(),
        "text/plain",
    );
    assert!(result.success);
    assert!(result.artifact_id.is_some());
    assert!(result.location.is_some());
}

#[test]
fn memory_graph_test_adapter_disabled_by_default() {
    let adapter = MemoryGraphAdapter::default();
    assert!(!adapter.is_enabled());
}

#[test]
fn memory_graph_test_adapter_enabled_with_endpoint() {
    let adapter = MemoryGraphAdapter::new("http://localhost:8080".to_string());
    assert!(adapter.is_enabled());
    assert_eq!(adapter.endpoint(), "http://localhost:8080");
}

#[test]
fn test_disabled_adapter_returns_none() {
    let adapter = MemoryGraphAdapter::disabled();
    let result = adapter.ingest_lineage("00000000-0000-4000-8000-000000000003", "step1");
    assert!(result.is_none());
}

#[test]
fn test_enabled_adapter_returns_lineage() {
    let adapter = MemoryGraphAdapter::new("http://localhost:8080".to_string());
    let workflow_id = "00000000-0000-4000-8000-000000000003";
    let result = adapter.ingest_lineage(workflow_id, "step1");
    assert!(result.is_some());
    let record = result.unwrap();
    assert_eq!(record.workflow_id, workflow_id);
    assert_eq!(record.step_id, "step1");
}

#[test]
fn router_l2_test_adapter_disabled_by_default() {
    let adapter = RouterL2Adapter::default();
    assert!(!adapter.is_enabled());
}

#[test]
fn router_l2_test_adapter_enabled_with_endpoint() {
    let adapter = RouterL2Adapter::new("http://localhost:8084".to_string());
    assert!(adapter.is_enabled());
}

#[test]
fn test_graph_navigator() {
    let mut nav = GraphNavigator::new("step1".to_string());
    assert_eq!(nav.current_node, "step1");
    assert!(nav.has_visited("step1"));
    assert!(!nav.has_visited("step2"));

    nav.advance("step2".to_string());
    assert_eq!(nav.current_node, "step2");
    assert!(nav.has_visited("step2"));
    assert_eq!(nav.path, vec!["step1".to_string(), "step2".to_string()]);
}

#[test]
fn test_get_routing_decision_when_disabled() {
    let adapter = RouterL2Adapter::disabled();
    let result = adapter.get_routing_decision("00000000-0000-4000-8000-000000000004", "step1");
    assert!(result.is_none());
}

#[test]
fn test_get_routing_decision_when_enabled() {
    let adapter = RouterL2Adapter::new("http://localhost:8084".to_string());
    let result = adapter.get_routing_decision("00000000-0000-4000-8000-000000000004", "step1");
    assert!(result.is_some());
    let decision = result.unwrap();
    assert_eq!(decision.source, "step1");
}

#[test]
fn test_benchmark_iteration_budgets() {
    assert_eq!(WorkflowDagConstructionBenchmark::new().iterations(), 100);
    assert_eq!(WorkflowValidationBenchmark::new().iterations(), 1000);
    assert_eq!(ParallelStepCoordinationBenchmark::new().iterations(), 100);
    assert_eq!(ContextTemplateRenderingBenchmark::new().iterations(), 1000);
    assert_eq!(MultiModelRoutingBenchmark::new().iterations(), 10000);
    assert_eq!(EvaluationFeedbackLoopBenchmark::new().iterations(), 100);
}
