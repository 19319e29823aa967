//! Audit log: events, the hash chain, storage queries, retention.

use llm_orchestrator::audit::logger::AuditLogger;
use llm_orchestrator::audit::models::{
    AuditEvent, AuditEventType, AuditFilter, AuditResult, ResourceType,
};
use llm_orchestrator::audit::retention::AuditRetentionManager;
use llm_orchestrator::audit::storage::{AuditStorage, InMemoryAuditStorage};
use llm_orchestrator::clock::now_unix_millis;
use llm_orchestrator::json::JsonValue;

#[test]
fn test_audit_event_creation() {
    let event = AuditEvent::new(
        AuditEventType::WorkflowExecution,
        "Execute workflow".to_string(),
        ResourceType::Workflow,
        "workflow-123".to_string(),
        AuditResult::Success,
    );

    assert_eq!(event.event_type, AuditEventType::WorkflowExecution);
    assert_eq!(event.action, "Execute workflow");
    assert_eq!(event.resource_type, ResourceType::Workflow);
    assert_eq!(event.resource_id, "workflow-123");
    assert!(event.result.is_success());
}

#[test]
fn test_audit_event_builder() {
    let event = AuditEvent::new(
        AuditEventType::Authentication,
        "Login".to_string(),
        ResourceType::User,
        "user-456".to_string(),
        AuditResult::Success,
    )
    .with_user_id("user-456".to_string())
    .with_ip_address("192.168.1.1".to_string())
    .with_request_id("req-789".to_string());

    assert_eq!(event.user_id, Some("user-456".to_string()));
    assert_eq!(event.ip_address, Some("192.168.1.1".to_string()));
    assert_eq!(event.request_id, Some("req-789".to_string()));
}

#[test]
fn test_audit_event_hash() {
    let event = AuditEvent::new(
        AuditEventType::WorkflowExecution,
        "Execute workflow".to_string(),
        ResourceType::Workflow,
        "workflow-123".to_string(),
        AuditResult::Success,
    );

    let hash1 = event.compute_hash();
    let hash2 = event.compute_hash();

    assert_eq!(hash1, hash2);
    assert_eq!(hash1.len(), 64);
}

#[test]
fn test_audit_result_methods() {
    let success = AuditResult::Success;
    assert!(success.is_success());
    assert_eq!(success.error_message(), None);

    let failure = AuditResult::Failure("Error message".to_string());
    assert!(!failure.is_success());
    assert_eq!(failure.error_message(), Some("Error message"));
}

#[test]
fn test_audit_filter_builder() {
    let filter = AuditFilter::new()
        .with_user_id("user-123".to_string())
        .with_event_type(AuditEventType::WorkflowExecution)
        .with_limit(50);

    assert_eq!(filter.user_id, Some("user-123".to_string()));
    assert_eq!(filter.event_type, Some(AuditEventType::WorkflowExecution));
    assert_eq!(filter.limit, 50);
}

#[test]
fn test_event_type_words_round_trip() {
    let kinds = [
        AuditEventType::Authentication,
        AuditEventType::Authorization,
        AuditEventType::WorkflowExecution,
        AuditEventType::WorkflowCreate,
        AuditEventType::WorkflowUpdate,
        AuditEventType::WorkflowDelete,
        AuditEventType::SecretAccess,
        AuditEventType::ConfigChange,
        AuditEventType::ApiKeyCreate,
        AuditEventType::ApiKeyRevoke,
        AuditEventType::StepExecution,
        AuditEventType::SystemEvent,
    ];
    for kind in kinds {
        assert_eq!(AuditEventType::from_str_opt(kind.as_str()), Some(kind));
    }
}

// --- logger ---

#[test]
fn test_audit_logger_workflow_execution() {
    let storage = InMemoryAuditStorage::new();
    let mut logger = AuditLogger::new(storage);

    logger
        .log_workflow_execution("workflow-123", "user-456", AuditResult::Success, 500)
        .unwrap();

    let filter = AuditFilter::new();
    let events = logger.storage().query(filter).unwrap();

    assert_eq!(events.len(), 1);
    assert_eq!(events[0].event_type, AuditEventType::WorkflowExecution);
    assert_eq!(events[0].resource_id, "workflow-123");
}

#[test]
fn test_audit_logger_hash_chain() {
    let storage = InMemoryAuditStorage::new();
    let mut logger = AuditLogger::new(storage);

    logger
        .log_auth_attempt("user-1", true, Some("192.168.1.1".to_string()))
        .unwrap();
    logger
        .log_auth_attempt("user-2", true, Some("192.168.1.2".to_string()))
        .unwrap();

    let filter = AuditFilter::new();
    let events = logger.storage().query(filter).unwrap();

    assert_eq!(events.len(), 2);

    // query returns newest first: the second event references the first
    assert!(events[0].previous_hash.is_some());
    assert!(events[1].previous_hash.is_none());
}

#[test]
fn test_hash_chain_three_events() {
    let storage = InMemoryAuditStorage::new();
    let mut logger = AuditLogger::new(storage);

    logger.log_workflow_create("wf-1", "first", "user-1").unwrap();
    logger.log_workflow_create("wf-2", "second", "user-1").unwrap();
    logger.log_workflow_create("wf-3", "third", "user-1").unwrap();

    // read in stored (oldest-first) order straight from the backend
    let stored = &logger.storage().events;
    assert_eq!(stored.len(), 3);
    let e1 = &stored[0];
    let e2 = &stored[1];
    let e3 = &stored[2];

    assert!(e1.previous_hash.is_none());
    assert_eq!(e2.previous_hash, e1.event_hash);
    assert_eq!(e3.previous_hash, e2.event_hash);

    // recomputing every digest from stored fields matches
    assert_eq!(Some(e1.compute_hash()), e1.event_hash);
    assert_eq!(Some(e2.compute_hash()), e2.event_hash);
    assert_eq!(Some(e3.compute_hash()), e3.event_hash);
}

#[test]
fn test_disabled_logger() {
    let mut logger = AuditLogger::<InMemoryAuditStorage>::disabled();

    assert!(!logger.is_enabled());

    logger
        .log_workflow_execution("workflow-123", "user-456", AuditResult::Success, 500)
        .unwrap();

    let events = logger.storage().query(AuditFilter::new()).unwrap();
    assert_eq!(events.len(), 0);
}

#[test]
fn test_audit_logger_secret_access() {
    let storage = InMemoryAuditStorage::new();
    let mut logger = AuditLogger::new(storage);

    logger
        .log_secret_access("api_key", "user-123", now_unix_millis())
        .unwrap();

    let filter = AuditFilter::new();
    let events = logger.storage().query(filter).unwrap();

    assert_eq!(events.len(), 1);
    assert_eq!(events[0].event_type, AuditEventType::SecretAccess);
    assert_eq!(events[0].resource_type, ResourceType::Secret);
}

// --- storage queries ---

#[test]
fn test_storage_store_and_query() {
    let mut storage = InMemoryAuditStorage::new();

    let event = AuditEvent::new(
        AuditEventType::WorkflowExecution,
        "Test workflow".to_string(),
        ResourceType::Workflow,
        "workflow-123".to_string(),
        AuditResult::Success,
    )
    .with_user_id("user-456".to_string());

    storage.store(&event).unwrap();

    let events = storage.query(AuditFilter::new()).unwrap();

    assert_eq!(events.len(), 1);
    assert_eq!(events[0].id, event.id);
    assert_eq!(events[0].user_id, Some("user-456".to_string()));
}

#[test]
fn test_storage_filter_by_user() {
    let mut storage = InMemoryAuditStorage::new();

    for i in 0..5 {
        let event = AuditEvent::new(
            AuditEventType::WorkflowExecution,
            format!("Workflow {}", i),
            ResourceType::Workflow,
            format!("workflow-{}", i),
            AuditResult::Success,
        )
        .with_user_id(format!("user-{}", i % 2));

        storage.store(&event).unwrap();
    }

    let filter = AuditFilter::new().with_user_id("user-0".to_string());
    let events = storage.query(filter).unwrap();

    assert_eq!(events.len(), 3);
}

#[test]
fn test_storage_query_newest_first_and_delete_all() {
    let mut storage = InMemoryAuditStorage::new();

    let mut ts = now_unix_millis();
    for i in 0..4 {
        let mut event = AuditEvent::new(
            AuditEventType::WorkflowExecution,
            format!("Workflow {}", i),
            ResourceType::Workflow,
            format!("workflow-{}", i),
            AuditResult::Success,
        );
        ts += 10;
        event.timestamp_ms = ts;
        storage.store(&event).unwrap();
    }

    // the empty filter returns all four, newest first
    let events = storage.query(AuditFilter::new()).unwrap();
    assert_eq!(events.len(), 4);
    for w in events.windows(2) {
        assert!(w[0].timestamp_ms >= w[1].timestamp_ms);
    }
    assert_eq!(events[0].resource_id, "workflow-3");
    assert_eq!(events[3].resource_id, "workflow-0");

    // deleting with a cutoff above every timestamp empties the store
    let deleted = storage.delete_older_than(ts + 1).unwrap();
    assert_eq!(deleted, 4);
    let events = storage.query(AuditFilter::new()).unwrap();
    assert_eq!(events.len(), 0);
}

#[test]
fn test_storage_get_by_id() {
    let mut storage = InMemoryAuditStorage::new();
    let event = AuditEvent::new(
        AuditEventType::ConfigChange,
        "Change".to_string(),
        ResourceType::Configuration,
        "key".to_string(),
        AuditResult::PartialSuccess,
    );
    storage.store(&event).unwrap();

    let found = storage.get(&event.id).unwrap();
    assert!(found.is_some());
    assert_eq!(found.unwrap().id, event.id);

    let missing = storage.get("no-such-id").unwrap();
    assert!(missing.is_none());
}

#[test]
fn test_storage_count_matches_query() {
    let mut storage = InMemoryAuditStorage::new();
    for i in 0..3 {
        let event = AuditEvent::new(
            AuditEventType::StepExecution,
            format!("step {}", i),
            ResourceType::Step,
            format!("step-{}", i),
            AuditResult::Success,
        );
        storage.store(&event).unwrap();
    }
    let count = storage.count(AuditFilter::new()).unwrap();
    assert_eq!(count, 3);
}

// --- retention ---

#[test]
fn test_retention_cleanup() {
    let mut storage = InMemoryAuditStorage::new();

    let mut old_event = AuditEvent::new(
        AuditEventType::WorkflowExecution,
        "Old workflow".to_string(),
        ResourceType::Workflow,
        "workflow-old".to_string(),
        AuditResult::Success,
    );
    old_event.timestamp_ms = now_unix_millis() - 2 * 86400000;
    storage.store(&old_event).unwrap();

    let recent_event = AuditEvent::new(
        AuditEventType::WorkflowExecution,
        "Recent workflow".to_string(),
        ResourceType::Workflow,
        "workflow-recent".to_string(),
        AuditResult::Success,
    );
    storage.store(&recent_event).unwrap();

    let mut manager = AuditRetentionManager::new(storage, 1);

    let deleted = manager.cleanup().unwrap();
    assert_eq!(deleted, 1);

    let events = manager.storage().query(AuditFilter::new()).unwrap();
    assert_eq!(events.len(), 1);
    assert_eq!(events[0].resource_id, "workflow-recent");
}

#[test]
fn test_retention_cutoff_date() {
    let storage = InMemoryAuditStorage::new();
    let manager = AuditRetentionManager::new(storage, 90);

    assert_eq!(manager.retention_days(), 90);

    let cutoff = manager.cutoff_date_ms();
    let expected_cutoff = now_unix_millis() - 90i64 * 86400000;

    assert!((cutoff - expected_cutoff).abs() <= 1000);
}

// --- canonical JSON codec ---

#[test]
fn test_event_json_round_trip() {
    let mut event = AuditEvent::new(
        AuditEventType::StepExecution,
        "step executed: s1".to_string(),
        ResourceType::Step,
        "s1".to_string(),
        AuditResult::Failure("provider error".to_string()),
    )
    .with_user_id("user-9".to_string())
    .with_ip_address("10.0.0.1".to_string())
    .with_user_agent("agent/1.0".to_string())
    .with_request_id("req-1".to_string())
    .with_details(JsonValue::Obj(vec![(
        "workflow_id".to_string(),
        JsonValue::Str("wf-1".to_string()),
    )]));
    event.previous_hash = Some("0".repeat(64));
    event.event_hash = Some(event.compute_hash());

    let decoded = AuditEvent::from_json(&event.to_json()).unwrap();

    assert_eq!(decoded.id, event.id);
    assert_eq!(decoded.timestamp_ms, event.timestamp_ms);
    assert_eq!(decoded.event_type, event.event_type);
    assert_eq!(decoded.user_id, event.user_id);
    assert_eq!(decoded.action, event.action);
    assert_eq!(decoded.resource_type, event.resource_type);
    assert_eq!(decoded.resource_id, event.resource_id);
    assert_eq!(decoded.result.as_str(), event.result.as_str());
    assert_eq!(decoded.result.error_message(), event.result.error_message());
    assert_eq!(decoded.ip_address, event.ip_address);
    assert_eq!(decoded.user_agent, event.user_agent);
    assert_eq!(decoded.request_id, event.request_id);
    assert_eq!(decoded.previous_hash, event.previous_hash);
    assert_eq!(decoded.event_hash, event.event_hash);
    match &decoded.details {
        JsonValue::Obj(fields) => {
            assert_eq!(fields.len(), 1);
            assert_eq!(fields[0].0, "workflow_id");
            assert!(matches!(&fields[0].1, JsonValue::Str(s) if s == "wf-1"));
        }
        other => panic!("unexpected details {:?}", other),
    }
    // re-serializing after the round trip is stable
    assert_eq!(decoded.compute_hash(), event.compute_hash());
}

#[test]
fn test_event_from_json_rejects_wrong_shape() {
    assert!(AuditEvent::from_json(&JsonValue::Null).is_none());
    assert!(AuditEvent::from_json(&JsonValue::Obj(vec![])).is_none());
    assert!(AuditEvent::from_json(&JsonValue::Str("not an event".to_string())).is_none());
}
