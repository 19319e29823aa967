//! The memory-graph adapter: lineage and context history.

use vstd::prelude::*;
use crate::json::JsonValue;
use crate::strutil::copy_str;
use crate::ident::fresh_uuid_string;
use crate::clock::now_unix_millis;

verus! {

/// One lineage fact: a step execution and its ancestry link.
#[derive(Debug, Clone)]
pub struct LineageRecord {
    /// The record's identifier (a UUID in string form).
    pub id: String,
    /// The execution it belongs to.
    pub workflow_id: String,
    /// The step within it.
    pub step_id: String,
    /// The parent record, if any.
    pub parent_id: Option<String>,
    /// When the event happened, epoch milliseconds.
    pub timestamp_ms: i64,
    /// What kind of lineage event it is.
    pub event_type: String,
    /// Free-form metadata.
    pub metadata: Vec<(String, JsonValue)>,
}

/// One snapshot of the execution context.
#[derive(Debug, Clone)]
pub struct ContextHistoryEntry {
    /// The entry's identifier (a UUID in string form).
    pub id: String,
    /// The execution it belongs to.
    pub workflow_id: String,
    /// The step that produced it.
    pub step_id: String,
    /// Its position in execution order.
    pub sequence: u64,
    /// The context variables at that point.
    pub context_snapshot: Vec<(String, JsonValue)>,
    /// When it was captured, epoch milliseconds.
    pub timestamp_ms: i64,
}

/// The adapter: a disableable client of the graph service.
#[derive(Debug, Clone)]
pub struct MemoryGraphAdapter {
    endpoint: String,
    enabled: bool,
}

impl MemoryGraphAdapter {
    /// An enabled adapter against an endpoint.
    pub fn new(endpoint: String) -> (r: MemoryGraphAdapter)
        ensures
            r.spec_enabled(),
            r.endpoint_view() == endpoint@,
    {
        MemoryGraphAdapter { endpoint, enabled: true }
    }

    /// A disabled adapter: every call is a no-op.
    pub fn disabled() -> (r: MemoryGraphAdapter)
        ensures
            !r.spec_enabled(),
            r.endpoint_view() == Seq::<char>::empty(),
    {
        MemoryGraphAdapter { endpoint: String::new(), enabled: false }
    }

    /// Whether calls do anything.
    pub closed spec fn spec_enabled(self) -> bool {
        self.enabled
    }

    /// The configured endpoint.
    pub closed spec fn endpoint_view(self) -> Seq<char> {
        self.endpoint@
    }
}

impl Default for MemoryGraphAdapter {
    /// A disabled adapter, as [`MemoryGraphAdapter::disabled`].
    fn default() -> (r: MemoryGraphAdapter)
        ensures
            !r.spec_enabled(),
    {
        MemoryGraphAdapter::disabled()
    }
}

impl MemoryGraphAdapter {

    /// Whether calls do anything.
    pub fn is_enabled(&self) -> (r: bool)
        ensures
            r == self.spec_enabled(),
    {
        self.enabled
    }

    /// The configured endpoint.
    pub fn endpoint(&self) -> (r: &str)
        ensures
            r@ == self.endpoint_view(),
    {
        self.endpoint.as_str()
    }

    /// A lineage record for a step execution; `None` when disabled.
    pub fn ingest_lineage(&self, workflow_id: &str, step_id: &str) -> (r: Option<LineageRecord>)
        ensures
            !self.spec_enabled() ==> r is None,
            self.spec_enabled() ==> (match r {
                Option::Some(rec) => rec.workflow_id@ == workflow_id@
                    && rec.step_id@ == step_id@
                    && rec.event_type@ == "step_execution"@,
                Option::None => false,
            }),
    {
        if !self.enabled {
            return None;
        }
        Some(LineageRecord {
            id: fresh_uuid_string(),
            workflow_id: copy_str(workflow_id),
            step_id: copy_str(step_id),
            parent_id: None,
            timestamp_ms: now_unix_millis(),
            event_type: copy_str("step_execution"),
            metadata: Vec::new(),
        })
    }

    /// The context snapshots of an execution; empty when disabled.
    pub fn get_context_history(&self, workflow_id: &str) -> (r: Vec<ContextHistoryEntry>)
        ensures
            !self.spec_enabled() ==> r@.len() == 0,
    {
        Vec::new()
    }

    /// Records one context snapshot; `None` when disabled.
    pub fn record_context(&self, workflow_id: &str, step_id: &str, sequence: u64, context: Vec<(String, JsonValue)>)
        -> (r: Option<ContextHistoryEntry>)
        ensures
            !self.spec_enabled() ==> r is None,
            self.spec_enabled() ==> (match r {
                Option::Some(entry) => entry.workflow_id@ == workflow_id@
                    && entry.step_id@ == step_id@
                    && entry.sequence == sequence,
                Option::None => false,
            }),
    {
        if !self.enabled {
            return None;
        }
        Some(ContextHistoryEntry {
            id: fresh_uuid_string(),
            workflow_id: copy_str(workflow_id),
            step_id: copy_str(step_id),
            sequence,
            context_snapshot: context,
            timestamp_ms: now_unix_millis(),
        })
    }

    /// The ancestors of a lineage record; empty when disabled.
    pub fn get_lineage_ancestors(&self, lineage_id: &str) -> (r: Vec<LineageRecord>)
        ensures
            !self.spec_enabled() ==> r@.len() == 0,
    {
        Vec::new()
    }

    /// The descendants of a lineage record; empty when disabled.
    pub fn get_lineage_descendants(&self, lineage_id: &str) -> (r: Vec<LineageRecord>)
        ensures
            !self.spec_enabled() ==> r@.len() == 0,
    {
        Vec::new()
    }
}

} // verus!
