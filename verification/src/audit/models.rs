//! Audit events: what happened, to what, with what outcome — each event
//! carrying a digest of itself and of its predecessor.

use vstd::prelude::*;
use crate::json::{JsonValue, JsonSpec};
use crate::strutil::copy_str;
use crate::hashing::{sha256_hex, sha256_hex_of};
use crate::ident::{fresh_uuid_string, rfc3339_utc, rfc3339_of};
use crate::clock::now_unix_millis;

verus! {

/// What kind of action an event records.
#[derive(Debug, Clone, Copy, PartialEq, Eq, Structural)]
pub enum AuditEventType {
    Authentication,
    Authorization,
    WorkflowExecution,
    WorkflowCreate,
    WorkflowUpdate,
    WorkflowDelete,
    SecretAccess,
    ConfigChange,
    ApiKeyCreate,
    ApiKeyRevoke,
    StepExecution,
    SystemEvent,
}

/// The wire word of an event kind.
pub open spec fn spec_event_type_str(t: AuditEventType) -> Seq<char> {
    match t {
        AuditEventType::Authentication => "authentication"@,
        AuditEventType::Authorization => "authorization"@,
        AuditEventType::WorkflowExecution => "workflow_execution"@,
        AuditEventType::WorkflowCreate => "workflow_create"@,
        AuditEventType::WorkflowUpdate => "workflow_update"@,
        AuditEventType::WorkflowDelete => "workflow_delete"@,
        AuditEventType::SecretAccess => "secret_access"@,
        AuditEventType::ConfigChange => "config_change"@,
        AuditEventType::ApiKeyCreate => "api_key_create"@,
        AuditEventType::ApiKeyRevoke => "api_key_revoke"@,
        AuditEventType::StepExecution => "step_execution"@,
        AuditEventType::SystemEvent => "system_event"@,
    }
}

/// The event kind a wire word stands for, if any: the inverse of
/// [`spec_event_type_str`].
pub open spec fn spec_event_type_from_str(s: Seq<char>) -> Option<AuditEventType> {
    if s == "authentication"@ { Option::Some(AuditEventType::Authentication) }
    else if s == "authorization"@ { Option::Some(AuditEventType::Authorization) }
    else if s == "workflow_execution"@ { Option::Some(AuditEventType::WorkflowExecution) }
    else if s == "workflow_create"@ { Option::Some(AuditEventType::WorkflowCreate) }
    else if s == "workflow_update"@ { Option::Some(AuditEventType::WorkflowUpdate) }
    else if s == "workflow_delete"@ { Option::Some(AuditEventType::WorkflowDelete) }
    else if s == "secret_access"@ { Option::Some(AuditEventType::SecretAccess) }
    else if s == "config_change"@ { Option::Some(AuditEventType::ConfigChange) }
    else if s == "api_key_create"@ { Option::Some(AuditEventType::ApiKeyCreate) }
    else if s == "api_key_revoke"@ { Option::Some(AuditEventType::ApiKeyRevoke) }
    else if s == "step_execution"@ { Option::Some(AuditEventType::StepExecution) }
    else if s == "system_event"@ { Option::Some(AuditEventType::SystemEvent) }
    else { Option::None }
}

impl AuditEventType {
    /// The wire word of this event kind.
    pub fn as_str(&self) -> (r: &'static str)
        ensures
            r@ == spec_event_type_str(*self),
    {
        match self {
            AuditEventType::Authentication => "authentication",
            AuditEventType::Authorization => "authorization",
            AuditEventType::WorkflowExecution => "workflow_execution",
            AuditEventType::WorkflowCreate => "workflow_create",
            AuditEventType::WorkflowUpdate => "workflow_update",
            AuditEventType::WorkflowDelete => "workflow_delete",
            AuditEventType::SecretAccess => "secret_access",
            AuditEventType::ConfigChange => "config_change",
            AuditEventType::ApiKeyCreate => "api_key_create",
            AuditEventType::ApiKeyRevoke => "api_key_revoke",
            AuditEventType::StepExecution => "step_execution",
            AuditEventType::SystemEvent => "system_event",
        }
    }

    /// The event kind a wire word stands for, if any.
    pub fn from_str_opt(s: &str) -> (r: Option<AuditEventType>)
        ensures
            r == spec_event_type_from_str(s@),
    {
        if crate::strutil::str_eq(s, "authentication") { Some(AuditEventType::Authentication) }
        else if crate::strutil::str_eq(s, "authorization") { Some(AuditEventType::Authorization) }
        else if crate::strutil::str_eq(s, "workflow_execution") { Some(AuditEventType::WorkflowExecution) }
        else if crate::strutil::str_eq(s, "workflow_create") { Some(AuditEventType::WorkflowCreate) }
        else if crate::strutil::str_eq(s, "workflow_update") { Some(AuditEventType::WorkflowUpdate) }
        else if crate::strutil::str_eq(s, "workflow_delete") { Some(AuditEventType::WorkflowDelete) }
        else if crate::strutil::str_eq(s, "secret_access") { Some(AuditEventType::SecretAccess) }
        else if crate::strutil::str_eq(s, "config_change") { Some(AuditEventType::ConfigChange) }
        else if crate::strutil::str_eq(s, "api_key_create") { Some(AuditEventType::ApiKeyCreate) }
        else if crate::strutil::str_eq(s, "api_key_revoke") { Some(AuditEventType::ApiKeyRevoke) }
        else if crate::strutil::str_eq(s, "step_execution") { Some(AuditEventType::StepExecution) }
        else if crate::strutil::str_eq(s, "system_event") { Some(AuditEventType::SystemEvent) }
        else { None }
    }
}

/// Reading an event kind's wire word back gives the kind.
pub proof fn lemma_event_type_word_round_trip(t: AuditEventType)
    ensures
        spec_event_type_from_str(spec_event_type_str(t)) == Option::Some(t),
{
    reveal_strlit("authentication");
    reveal_strlit("authorization");
    reveal_strlit("workflow_execution");
    reveal_strlit("workflow_create");
    reveal_strlit("workflow_update");
    reveal_strlit("workflow_delete");
    reveal_strlit("secret_access");
    reveal_strlit("config_change");
    reveal_strlit("api_key_create");
    reveal_strlit("api_key_revoke");
    reveal_strlit("step_execution");
    reveal_strlit("system_event");
    assert("authentication"@.len() == 14);
    assert("authorization"@.len() == 13);
    assert("workflow_execution"@.len() == 18);
    assert("workflow_create"@.len() == 15);
    assert("workflow_update"@.len() == 15);
    assert("workflow_delete"@.len() == 15);
    assert("secret_access"@.len() == 13);
    assert("config_change"@.len() == 13);
    assert("api_key_create"@.len() == 14);
    assert("api_key_revoke"@.len() == 14);
    assert("step_execution"@.len() == 14);
    assert("system_event"@.len() == 12);
    // words of equal length differ at some position
    assert("authorization"@[0] != "secret_access"@[0]);
    assert("authorization"@[0] != "config_change"@[0]);
    assert("secret_access"@[0] != "config_change"@[0]);
    assert("authentication"@[1] != "api_key_create"@[1]);
    assert("authentication"@[1] != "api_key_revoke"@[1]);
    assert("authentication"@[0] != "step_execution"@[0]);
    assert("api_key_create"@[8] != "api_key_revoke"@[8]);
    assert("api_key_create"@[0] != "step_execution"@[0]);
    assert("api_key_revoke"@[0] != "step_execution"@[0]);
    assert("workflow_create"@[9] != "workflow_update"@[9]);
    assert("workflow_create"@[9] != "workflow_delete"@[9]);
    assert("workflow_update"@[9] != "workflow_delete"@[9]);
    match t {
        AuditEventType::Authentication => {
            assert(spec_event_type_from_str("authentication"@) == Option::Some(t));
        },
        AuditEventType::Authorization => {
            assert(spec_event_type_from_str("authorization"@) == Option::Some(t));
        },
        AuditEventType::WorkflowExecution => {
            assert(spec_event_type_from_str("workflow_execution"@) == Option::Some(t));
        },
        AuditEventType::WorkflowCreate => {
            assert(spec_event_type_from_str("workflow_create"@) == Option::Some(t));
        },
        AuditEventType::WorkflowUpdate => {
            assert(spec_event_type_from_str("workflow_update"@) == Option::Some(t));
        },
        AuditEventType::WorkflowDelete => {
            assert(spec_event_type_from_str("workflow_delete"@) == Option::Some(t));
        },
        AuditEventType::SecretAccess => {
            assert(spec_event_type_from_str("secret_access"@) == Option::Some(t));
        },
        AuditEventType::ConfigChange => {
            assert(spec_event_type_from_str("config_change"@) == Option::Some(t));
        },
        AuditEventType::ApiKeyCreate => {
            assert(spec_event_type_from_str("api_key_create"@) == Option::Some(t));
        },
        AuditEventType::ApiKeyRevoke => {
            assert(spec_event_type_from_str("api_key_revoke"@) == Option::Some(t));
        },
        AuditEventType::StepExecution => {
            assert(spec_event_type_from_str("step_execution"@) == Option::Some(t));
        },
        AuditEventType::SystemEvent => {
            assert(spec_event_type_from_str("system_event"@) == Option::Some(t));
        },
    }
}

/// What kind of resource an event touches.
#[derive(Debug, Clone, Copy, PartialEq, Eq, Structural)]
pub enum ResourceType {
    Workflow,
    User,
    ApiKey,
    Secret,
    Configuration,
    Step,
    System,
}

/// The wire word of a resource kind.
pub open spec fn spec_resource_type_str(t: ResourceType) -> Seq<char> {
    match t {
        ResourceType::Workflow => "workflow"@,
        ResourceType::User => "user"@,
        ResourceType::ApiKey => "api_key"@,
        ResourceType::Secret => "secret"@,
        ResourceType::Configuration => "configuration"@,
        ResourceType::Step => "step"@,
        ResourceType::System => "system"@,
    }
}

/// The resource kind a wire word stands for, if any.
pub open spec fn spec_resource_type_from_str(s: Seq<char>) -> Option<ResourceType> {
    if s == "workflow"@ { Option::Some(ResourceType::Workflow) }
    else if s == "user"@ { Option::Some(ResourceType::User) }
    else if s == "api_key"@ { Option::Some(ResourceType::ApiKey) }
    else if s == "secret"@ { Option::Some(ResourceType::Secret) }
    else if s == "configuration"@ { Option::Some(ResourceType::Configuration) }
    else if s == "step"@ { Option::Some(ResourceType::Step) }
    else if s == "system"@ { Option::Some(ResourceType::System) }
    else { Option::None }
}

impl ResourceType {
    /// The wire word of this resource kind.
    pub fn as_str(&self) -> (r: &'static str)
        ensures
            r@ == spec_resource_type_str(*self),
    {
        match self {
            ResourceType::Workflow => "workflow",
            ResourceType::User => "user",
            ResourceType::ApiKey => "api_key",
            ResourceType::Secret => "secret",
            ResourceType::Configuration => "configuration",
            ResourceType::Step => "step",
            ResourceType::System => "system",
        }
    }

    /// The resource kind a wire word stands for, if any.
    pub fn from_str_opt(s: &str) -> (r: Option<ResourceType>)
        ensures
            r == spec_resource_type_from_str(s@),
    {
        if crate::strutil::str_eq(s, "workflow") { Some(ResourceType::Workflow) }
        else if crate::strutil::str_eq(s, "user") { Some(ResourceType::User) }
        else if crate::strutil::str_eq(s, "api_key") { Some(ResourceType::ApiKey) }
        else if crate::strutil::str_eq(s, "secret") { Some(ResourceType::Secret) }
        else if crate::strutil::str_eq(s, "configuration") { Some(ResourceType::Configuration) }
        else if crate::strutil::str_eq(s, "step") { Some(ResourceType::Step) }
        else if crate::strutil::str_eq(s, "system") { Some(ResourceType::System) }
        else { None }
    }
}

/// Reading a resource kind's wire word back gives the kind.
pub proof fn lemma_resource_type_word_round_trip(t: ResourceType)
    ensures
        spec_resource_type_from_str(spec_resource_type_str(t)) == Option::Some(t),
{
    reveal_strlit("workflow");
    reveal_strlit("user");
    reveal_strlit("api_key");
    reveal_strlit("secret");
    reveal_strlit("configuration");
    reveal_strlit("step");
    reveal_strlit("system");
    assert("workflow"@.len() == 8);
    assert("user"@.len() == 4);
    assert("api_key"@.len() == 7);
    assert("secret"@.len() == 6);
    assert("configuration"@.len() == 13);
    assert("step"@.len() == 4);
    assert("system"@.len() == 6);
    // words of equal length differ at a position
    assert("secret"@[1] != "system"@[1]);
    assert("user"@[0] != "step"@[0]);
    match t {
        ResourceType::Workflow => {
            assert(spec_resource_type_from_str("workflow"@) == Option::Some(t));
        },
        ResourceType::User => {
            assert(spec_resource_type_from_str("user"@) == Option::Some(t));
        },
        ResourceType::ApiKey => {
            assert(spec_resource_type_from_str("api_key"@) == Option::Some(t));
        },
        ResourceType::Secret => {
            assert(spec_resource_type_from_str("secret"@) == Option::Some(t));
        },
        ResourceType::Configuration => {
            assert(spec_resource_type_from_str("configuration"@) == Option::Some(t));
        },
        ResourceType::Step => {
            assert(spec_resource_type_from_str("step"@) == Option::Some(t));
        },
        ResourceType::System => {
            assert(spec_resource_type_from_str("system"@) == Option::Some(t));
        },
    }
}

/// The outcome an event records.
#[derive(Debug)]
pub enum AuditResult {
    /// The action went through.
    Success,
    /// The action failed, with its message.
    Failure(String),
    /// Some of the action went through.
    PartialSuccess,
}

/// The model of an outcome.
pub enum AuditResultSpec {
    Success,
    Failure(Seq<char>),
    PartialSuccess,
}

impl View for AuditResult {
    type V = AuditResultSpec;

    open spec fn view(&self) -> AuditResultSpec {
        match self {
            AuditResult::Success => AuditResultSpec::Success,
            AuditResult::Failure(m) => AuditResultSpec::Failure(m@),
            AuditResult::PartialSuccess => AuditResultSpec::PartialSuccess,
        }
    }
}

/// The wire tag of an outcome; the failure message is carried elsewhere.
pub open spec fn spec_result_tag(r: AuditResultSpec) -> Seq<char> {
    match r {
        AuditResultSpec::Success => "success"@,
        AuditResultSpec::Failure(_) => "failure"@,
        AuditResultSpec::PartialSuccess => "partial_success"@,
    }
}

impl AuditResult {
    /// The wire tag of this outcome.
    pub fn as_str(&self) -> (r: &'static str)
        ensures
            r@ == spec_result_tag(self@),
    {
        match self {
            AuditResult::Success => "success",
            AuditResult::Failure(_) => "failure",
            AuditResult::PartialSuccess => "partial_success",
        }
    }

    /// Whether the outcome is a full success.
    pub fn is_success(&self) -> (r: bool)
        ensures
            r == (self@ is Success),
    {
        match self {
            AuditResult::Success => true,
            _ => false,
        }
    }

    /// The failure message, present exactly on failures.
    pub fn error_message(&self) -> (r: Option<&str>)
        ensures
            match r {
                Option::Some(m) => self@ matches AuditResultSpec::Failure(f) && m@ == f,
                Option::None => !(self@ is Failure),
            },
    {
        match self {
            AuditResult::Failure(m) => Some(m.as_str()),
            _ => None,
        }
    }
}

/// One audit event.
#[derive(Debug)]
pub struct AuditEvent {
    /// Identifier (a UUID in its string form).
    pub id: String,
    /// When the event occurred, in epoch milliseconds (UTC).
    pub timestamp_ms: i64,
    pub event_type: AuditEventType,
    /// Who acted, when known.
    pub user_id: Option<String>,
    /// What was done, in words.
    pub action: String,
    pub resource_type: ResourceType,
    /// Which resource was touched.
    pub resource_id: String,
    pub result: AuditResult,
    /// Free-form structured details.
    pub details: JsonValue,
    pub ip_address: Option<String>,
    pub user_agent: Option<String>,
    pub request_id: Option<String>,
    /// The previous persisted event's digest; empty for a chain's head.
    pub previous_hash: Option<String>,
    /// This event's own digest over its canonical text.
    pub event_hash: Option<String>,
}

/// The model of an audit event.
pub struct AuditEventSpec {
    pub id: Seq<char>,
    pub timestamp_ms: int,
    pub event_type: AuditEventType,
    pub user_id: Option<Seq<char>>,
    pub action: Seq<char>,
    pub resource_type: ResourceType,
    pub resource_id: Seq<char>,
    pub result: AuditResultSpec,
    pub details: JsonSpec,
    pub ip_address: Option<Seq<char>>,
    pub user_agent: Option<Seq<char>>,
    pub request_id: Option<Seq<char>>,
    pub previous_hash: Option<Seq<char>>,
    pub event_hash: Option<Seq<char>>,
}

/// The view of an optional string.
pub open spec fn opt_view(o: Option<String>) -> Option<Seq<char>> {
    match o {
        Option::Some(s) => Option::Some(s@),
        Option::None => Option::None,
    }
}

impl View for AuditEvent {
    type V = AuditEventSpec;

    open spec fn view(&self) -> AuditEventSpec {
        AuditEventSpec {
            id: self.id@,
            timestamp_ms: self.timestamp_ms as int,
            event_type: self.event_type,
            user_id: opt_view(self.user_id),
            action: self.action@,
            resource_type: self.resource_type,
            resource_id: self.resource_id@,
            result: self.result@,
            details: self.details@,
            ip_address: opt_view(self.ip_address),
            user_agent: opt_view(self.user_agent),
            request_id: opt_view(self.request_id),
            previous_hash: opt_view(self.previous_hash),
            event_hash: opt_view(self.event_hash),
        }
    }
}

/// A copy of an optional string.
pub(crate) fn clone_opt_string(o: &Option<String>) -> (r: Option<String>)
    ensures
        opt_view(r) == opt_view(*o),
{
    match o {
        Option::Some(s) => Some(s.clone()),
        Option::None => None,
    }
}

impl Clone for AuditResult {
    /// A copy with the same model.
    fn clone(&self) -> (r: Self)
        ensures
            r@ == self@,
    {
        match self {
            AuditResult::Success => AuditResult::Success,
            AuditResult::Failure(m) => AuditResult::Failure(m.clone()),
            AuditResult::PartialSuccess => AuditResult::PartialSuccess,
        }
    }
}

impl Clone for AuditEvent {
    /// A copy with the same model.
    fn clone(&self) -> (r: Self)
        ensures
            r@ == self@,
    {
        AuditEvent {
            id: self.id.clone(),
            timestamp_ms: self.timestamp_ms,
            event_type: self.event_type,
            user_id: clone_opt_string(&self.user_id),
            action: self.action.clone(),
            resource_type: self.resource_type,
            resource_id: self.resource_id.clone(),
            result: self.result.clone(),
            details: self.details.clone(),
            ip_address: clone_opt_string(&self.ip_address),
            user_agent: clone_opt_string(&self.user_agent),
            request_id: clone_opt_string(&self.request_id),
            previous_hash: clone_opt_string(&self.previous_hash),
            event_hash: clone_opt_string(&self.event_hash),
        }
    }
}

/// The canonical text an event's digest is computed over: the identifying
/// fields joined by `|`, with the predecessor's digest (or nothing) last.
pub open spec fn spec_canonical(e: AuditEventSpec) -> Seq<char> {
    e.id + "|"@
        + rfc3339_of(e.timestamp_ms) + "|"@
        + spec_event_type_str(e.event_type) + "|"@
        + e.action + "|"@
        + spec_resource_type_str(e.resource_type) + "|"@
        + e.resource_id + "|"@
        + spec_result_tag(e.result) + "|"@
        + (match e.previous_hash {
            Option::Some(p) => p,
            Option::None => Seq::empty(),
        })
}

/// The digest an event must carry: SHA-256 over its canonical text, in
/// lower-case hex.
pub open spec fn spec_event_digest(e: AuditEventSpec) -> Seq<char> {
    sha256_hex_of(spec_canonical(e))
}

impl AuditEvent {
    /// A fresh event: a new identifier, the clock's timestamp, no actor,
    /// no details, no chain digests yet.
    pub fn new(
        event_type: AuditEventType,
        action: String,
        resource_type: ResourceType,
        resource_id: String,
        result: AuditResult,
    ) -> (r: AuditEvent)
        ensures
            r.event_type == event_type,
            r.action@ == action@,
            r.resource_type == resource_type,
            r.resource_id@ == resource_id@,
            r.result@ == result@,
            r.user_id is None,
            r.details@ is Null,
            r.ip_address is None,
            r.user_agent is None,
            r.request_id is None,
            r.previous_hash is None,
            r.event_hash is None,
            r.id@.len() == 36,
    {
        AuditEvent {
            id: fresh_uuid_string(),
            timestamp_ms: now_unix_millis(),
            event_type,
            user_id: None,
            action,
            resource_type,
            resource_id,
            result,
            details: JsonValue::Null,
            ip_address: None,
            user_agent: None,
            request_id: None,
            previous_hash: None,
            event_hash: None,
        }
    }

    /// The event with its actor set.
    pub fn with_user_id(self, user_id: String) -> (r: AuditEvent)
        ensures
            r == (AuditEvent { user_id: Option::Some(user_id), ..self }),
    {
        AuditEvent { user_id: Some(user_id), ..self }
    }

    /// The event with structured details attached.
    pub fn with_details(self, details: JsonValue) -> (r: AuditEvent)
        ensures
            r == (AuditEvent { details, ..self }),
    {
        AuditEvent { details, ..self }
    }

    /// The event with the client address set.
    pub fn with_ip_address(self, ip_address: String) -> (r: AuditEvent)
        ensures
            r == (AuditEvent { ip_address: Option::Some(ip_address), ..self }),
    {
        AuditEvent { ip_address: Some(ip_address), ..self }
    }

    /// The event with the client's user agent set.
    pub fn with_user_agent(self, user_agent: String) -> (r: AuditEvent)
        ensures
            r == (AuditEvent { user_agent: Option::Some(user_agent), ..self }),
    {
        AuditEvent { user_agent: Some(user_agent), ..self }
    }

    /// The event with a correlation id set.
    pub fn with_request_id(self, request_id: String) -> (r: AuditEvent)
        ensures
            r == (AuditEvent { request_id: Option::Some(request_id), ..self }),
    {
        AuditEvent { request_id: Some(request_id), ..self }
    }

    /// The digest of this event's canonical text.
    pub fn compute_hash(&self) -> (r: String)
        ensures
            r@ == spec_event_digest(self@),
            r@.len() == 64,
    {
        let mut data = self.id.clone();
        data.append("|");
        data.append(rfc3339_utc(self.timestamp_ms).as_str());
        data.append("|");
        data.append(self.event_type.as_str());
        data.append("|");
        data.append(self.action.as_str());
        data.append("|");
        data.append(self.resource_type.as_str());
        data.append("|");
        data.append(self.resource_id.as_str());
        data.append("|");
        data.append(self.result.as_str());
        data.append("|");
        match &self.previous_hash {
            Option::Some(p) => {
                data.append(p.as_str());
            },
            Option::None => {},
        }
        proof {
            assert(data@ =~= spec_canonical(self@));
        }
        sha256_hex(data.as_str())
    }
}

/// A filter over stored events: every set field must match; results are
/// windowed by `offset` and `limit`.
#[derive(Debug, Clone)]
pub struct AuditFilter {
    pub user_id: Option<String>,
    pub event_type: Option<AuditEventType>,
    pub resource_type: Option<ResourceType>,
    pub resource_id: Option<String>,
    /// Inclusive lower bound on the timestamp, epoch milliseconds.
    pub start_time_ms: Option<i64>,
    /// Inclusive upper bound on the timestamp, epoch milliseconds.
    pub end_time_ms: Option<i64>,
    /// Matches on the outcome's tag (a failure matches any failure).
    pub result: Option<AuditResult>,
    /// Greatest number of events returned.
    pub limit: usize,
    /// Events skipped from the front of the matching set.
    pub offset: usize,
}

impl AuditFilter {
    /// The empty filter: everything matches, the first hundred come back.
    pub fn new() -> (r: AuditFilter)
        ensures
            r.user_id is None,
            r.event_type is None,
            r.resource_type is None,
            r.resource_id is None,
            r.start_time_ms is None,
            r.end_time_ms is None,
            r.result is None,
            r.limit == 100,
            r.offset == 0,
    {
        AuditFilter {
            user_id: None,
            event_type: None,
            resource_type: None,
            resource_id: None,
            start_time_ms: None,
            end_time_ms: None,
            result: None,
            limit: 100,
            offset: 0,
        }
    }

    /// The filter narrowed to one actor.
    pub fn with_user_id(self, user_id: String) -> (r: AuditFilter)
        ensures
            r == (AuditFilter { user_id: Option::Some(user_id), ..self }),
    {
        AuditFilter { user_id: Some(user_id), ..self }
    }

    /// The filter narrowed to one event kind.
    pub fn with_event_type(self, event_type: AuditEventType) -> (r: AuditFilter)
        ensures
            r == (AuditFilter { event_type: Option::Some(event_type), ..self }),
    {
        AuditFilter { event_type: Some(event_type), ..self }
    }

    /// The filter narrowed to one resource kind.
    pub fn with_resource_type(self, resource_type: ResourceType) -> (r: AuditFilter)
        ensures
            r == (AuditFilter { resource_type: Option::Some(resource_type), ..self }),
    {
        AuditFilter { resource_type: Some(resource_type), ..self }
    }

    /// The filter narrowed to one resource.
    pub fn with_resource_id(self, resource_id: String) -> (r: AuditFilter)
        ensures
            r == (AuditFilter { resource_id: Option::Some(resource_id), ..self }),
    {
        AuditFilter { resource_id: Some(resource_id), ..self }
    }

    /// The filter narrowed to a closed time window, epoch milliseconds.
    pub fn with_time_range(self, start_ms: i64, end_ms: i64) -> (r: AuditFilter)
        ensures
            r == (AuditFilter {
                start_time_ms: Option::Some(start_ms),
                end_time_ms: Option::Some(end_ms),
                ..self
            }),
    {
        AuditFilter { start_time_ms: Some(start_ms), end_time_ms: Some(end_ms), ..self }
    }

    /// The filter narrowed to one outcome tag.
    pub fn with_result(self, result: AuditResult) -> (r: AuditFilter)
        ensures
            r == (AuditFilter { result: Option::Some(result), ..self }),
    {
        AuditFilter { result: Some(result), ..self }
    }

    /// The filter with its window size changed.
    pub fn with_limit(self, limit: usize) -> (r: AuditFilter)
        ensures
            r == (AuditFilter { limit, ..self }),
    {
        AuditFilter { limit, ..self }
    }

    /// The filter with its window start changed.
    pub fn with_offset(self, offset: usize) -> (r: AuditFilter)
        ensures
            r == (AuditFilter { offset, ..self }),
    {
        AuditFilter { offset, ..self }
    }
}

/// A `Str` for a present string, `Null` for an absent one.
pub open spec fn spec_opt_str_json(o: Option<Seq<char>>) -> JsonSpec {
    match o {
        Option::Some(v) => JsonSpec::Str(v),
        Option::None => JsonSpec::Null,
    }
}

/// The optional string a `Str` or `Null` stands for; `None` otherwise.
pub open spec fn spec_json_opt_str(v: JsonSpec) -> Option<Option<Seq<char>>> {
    match v {
        JsonSpec::Str(s) => Option::Some(Option::Some(s)),
        JsonSpec::Null => Option::Some(Option::None),
        _ => Option::None,
    }
}

/// The outcome a wire tag and optional message stand for, if any.
pub open spec fn spec_result_from_parts(tag: Seq<char>, msg: Option<Seq<char>>) -> Option<AuditResultSpec> {
    if tag == "success"@ {
        Option::Some(AuditResultSpec::Success)
    } else if tag == "partial_success"@ {
        Option::Some(AuditResultSpec::PartialSuccess)
    } else if tag == "failure"@ {
        match msg {
            Option::Some(m) => Option::Some(AuditResultSpec::Failure(m)),
            Option::None => Option::Some(AuditResultSpec::Failure(Seq::empty())),
        }
    } else {
        Option::None
    }
}

/// The canonical JSON object of an event: fifteen fields in a fixed
/// order, optional strings as `Str` or `Null`, the outcome as its tag
/// plus an optional message.
pub open spec fn spec_event_to_json(e: AuditEventSpec) -> JsonSpec {
    JsonSpec::Obj(seq![
        ("id"@, JsonSpec::Str(e.id)),
        ("timestamp_ms"@, JsonSpec::Int(e.timestamp_ms)),
        ("event_type"@, JsonSpec::Str(spec_event_type_str(e.event_type))),
        ("user_id"@, spec_opt_str_json(e.user_id)),
        ("action"@, JsonSpec::Str(e.action)),
        ("resource_type"@, JsonSpec::Str(spec_resource_type_str(e.resource_type))),
        ("resource_id"@, JsonSpec::Str(e.resource_id)),
        ("result"@, JsonSpec::Str(spec_result_tag(e.result))),
        (
            "result_message"@,
            match e.result {
                AuditResultSpec::Failure(m) => JsonSpec::Str(m),
                _ => JsonSpec::Null,
            },
        ),
        ("details"@, e.details),
        ("ip_address"@, spec_opt_str_json(e.ip_address)),
        ("user_agent"@, spec_opt_str_json(e.user_agent)),
        ("request_id"@, spec_opt_str_json(e.request_id)),
        ("previous_hash"@, spec_opt_str_json(e.previous_hash)),
        ("event_hash"@, spec_opt_str_json(e.event_hash)),
    ])
}

/// Whether a JSON object has the canonical event shape.
pub open spec fn spec_event_json_shaped(f: Seq<(Seq<char>, JsonSpec)>) -> bool {
    &&& f.len() == 15
    &&& f[0].0 == "id"@ && f[0].1 is Str
    &&& f[1].0 == "timestamp_ms"@ && f[1].1 is Int
    &&& f[2].0 == "event_type"@ && f[2].1 is Str
        && spec_event_type_from_str(f[2].1->Str_0) is Some
    &&& f[3].0 == "user_id"@ && spec_json_opt_str(f[3].1) is Some
    &&& f[4].0 == "action"@ && f[4].1 is Str
    &&& f[5].0 == "resource_type"@ && f[5].1 is Str
        && spec_resource_type_from_str(f[5].1->Str_0) is Some
    &&& f[6].0 == "resource_id"@ && f[6].1 is Str
    &&& f[7].0 == "result"@ && f[7].1 is Str
    &&& f[8].0 == "result_message"@ && spec_json_opt_str(f[8].1) is Some
    &&& f[9].0 == "details"@
    &&& f[10].0 == "ip_address"@ && spec_json_opt_str(f[10].1) is Some
    &&& f[11].0 == "user_agent"@ && spec_json_opt_str(f[11].1) is Some
    &&& f[12].0 == "request_id"@ && spec_json_opt_str(f[12].1) is Some
    &&& f[13].0 == "previous_hash"@ && spec_json_opt_str(f[13].1) is Some
    &&& f[14].0 == "event_hash"@ && spec_json_opt_str(f[14].1) is Some
    &&& spec_result_from_parts(f[7].1->Str_0, spec_json_opt_str(f[8].1)->Some_0) is Some
}

/// The event a canonical JSON object stands for, if it has the shape.
pub open spec fn spec_event_from_json(v: JsonSpec) -> Option<AuditEventSpec> {
    match v {
        JsonSpec::Obj(f) => if spec_event_json_shaped(f) {
            Option::Some(AuditEventSpec {
                id: f[0].1->Str_0,
                timestamp_ms: f[1].1->Int_0,
                event_type: spec_event_type_from_str(f[2].1->Str_0)->Some_0,
                user_id: spec_json_opt_str(f[3].1)->Some_0,
                action: f[4].1->Str_0,
                resource_type: spec_resource_type_from_str(f[5].1->Str_0)->Some_0,
                resource_id: f[6].1->Str_0,
                result: spec_result_from_parts(
                    f[7].1->Str_0,
                    spec_json_opt_str(f[8].1)->Some_0,
                )->Some_0,
                details: f[9].1,
                ip_address: spec_json_opt_str(f[10].1)->Some_0,
                user_agent: spec_json_opt_str(f[11].1)->Some_0,
                request_id: spec_json_opt_str(f[12].1)->Some_0,
                previous_hash: spec_json_opt_str(f[13].1)->Some_0,
                event_hash: spec_json_opt_str(f[14].1)->Some_0,
            })
        } else {
            Option::None
        },
        _ => Option::None,
    }
}

/// Reading an event's canonical JSON back gives the event, field by field.
pub proof fn lemma_event_json_round_trip(e: AuditEventSpec)
    ensures
        spec_event_from_json(spec_event_to_json(e)) == Option::Some(e),
{
    lemma_event_type_word_round_trip(e.event_type);
    lemma_resource_type_word_round_trip(e.resource_type);
    reveal_strlit("success");
    reveal_strlit("partial_success");
    reveal_strlit("failure");
    assert("success"@.len() == 7);
    assert("partial_success"@.len() == 15);
    assert("failure"@.len() == 7);
    assert("success"@[0] != "failure"@[0]);
    let f = spec_event_to_json(e)->Obj_0;
    assert(spec_event_json_shaped(f));
    let got = spec_event_from_json(spec_event_to_json(e))->Some_0;
    assert(got.result == e.result);
    assert(got == e);
}

/// The `Str` or `Null` of an optional string.
pub(crate) fn opt_str_to_json(o: &Option<String>) -> (r: JsonValue)
    ensures
        r@ == spec_opt_str_json(opt_view(*o)),
{
    match o {
        Option::Some(v) => JsonValue::Str(v.clone()),
        Option::None => JsonValue::Null,
    }
}

/// The optional string a `Str` or `Null` holds; `None` otherwise.
pub(crate) fn json_to_opt_str(v: &JsonValue) -> (r: Option<Option<String>>)
    ensures
        match r {
            Option::Some(o) => spec_json_opt_str(v@) == Option::Some(opt_view(o)),
            Option::None => spec_json_opt_str(v@) is None,
        },
{
    match v {
        JsonValue::Str(s) => Some(Some(s.clone())),
        JsonValue::Null => Some(None),
        _ => None,
    }
}

impl AuditEvent {
    /// The canonical JSON object of this event: what the wire and the
    /// file log carry, one object per event.
    pub fn to_json(&self) -> (r: JsonValue)
        ensures
            r@ == spec_event_to_json(self@),
    {
        let mut fields: Vec<(String, JsonValue)> = Vec::new();
        fields.push((copy_str("id"), JsonValue::Str(self.id.clone())));
        fields.push((copy_str("timestamp_ms"), JsonValue::Int(self.timestamp_ms)));
        fields.push((copy_str("event_type"), JsonValue::Str(copy_str(self.event_type.as_str()))));
        fields.push((copy_str("user_id"), opt_str_to_json(&self.user_id)));
        fields.push((copy_str("action"), JsonValue::Str(self.action.clone())));
        fields.push((copy_str("resource_type"), JsonValue::Str(copy_str(self.resource_type.as_str()))));
        fields.push((copy_str("resource_id"), JsonValue::Str(self.resource_id.clone())));
        fields.push((copy_str("result"), JsonValue::Str(copy_str(self.result.as_str()))));
        let message = match &self.result {
            AuditResult::Failure(m) => JsonValue::Str(m.clone()),
            _ => JsonValue::Null,
        };
        fields.push((copy_str("result_message"), message));
        fields.push((copy_str("details"), self.details.clone()));
        fields.push((copy_str("ip_address"), opt_str_to_json(&self.ip_address)));
        fields.push((copy_str("user_agent"), opt_str_to_json(&self.user_agent)));
        fields.push((copy_str("request_id"), opt_str_to_json(&self.request_id)));
        fields.push((copy_str("previous_hash"), opt_str_to_json(&self.previous_hash)));
        fields.push((copy_str("event_hash"), opt_str_to_json(&self.event_hash)));
        let r = JsonValue::Obj(fields);
        proof {
            let fs = crate::json::jv_model_fields(r->Obj_0@);
            let want = spec_event_to_json(self@)->Obj_0;
            crate::json::lemma_jv_model_fields_len(r->Obj_0@);
            assert forall|k: int| 0 <= k < 15 implies #[trigger] fs[k] == want[k] by {
                crate::json::lemma_jv_model_fields_index(r->Obj_0@, k);
            }
            assert(fs =~= want);
        }
        r
    }

    /// The event a canonical JSON object holds, when it has the shape.
    pub fn from_json(v: &JsonValue) -> (r: Option<AuditEvent>)
        ensures
            match r {
                Option::Some(ev) => spec_event_from_json(v@) == Option::Some(ev@),
                Option::None => spec_event_from_json(v@) is None,
            },
    {
        let fields = match v {
            JsonValue::Obj(fields) => fields,
            _ => {
                return None;
            },
        };
        if fields.len() != 15 {
            proof {
                crate::json::lemma_jv_model_fields_len(fields@);
            }
            return None;
        }
        proof {
            crate::json::lemma_jv_model_fields_len(fields@);
            assert forall|k: int| 0 <= k < 15
                implies #[trigger] crate::json::jv_model_fields(fields@)[k]
                    == (fields@[k].0@, fields@[k].1@) by {
                crate::json::lemma_jv_model_fields_index(fields@, k);
            }
        }
        let keys_ok = crate::strutil::str_eq(fields[0].0.as_str(), "id")
            && crate::strutil::str_eq(fields[1].0.as_str(), "timestamp_ms")
            && crate::strutil::str_eq(fields[2].0.as_str(), "event_type")
            && crate::strutil::str_eq(fields[3].0.as_str(), "user_id")
            && crate::strutil::str_eq(fields[4].0.as_str(), "action")
            && crate::strutil::str_eq(fields[5].0.as_str(), "resource_type")
            && crate::strutil::str_eq(fields[6].0.as_str(), "resource_id")
            && crate::strutil::str_eq(fields[7].0.as_str(), "result")
            && crate::strutil::str_eq(fields[8].0.as_str(), "result_message")
            && crate::strutil::str_eq(fields[9].0.as_str(), "details")
            && crate::strutil::str_eq(fields[10].0.as_str(), "ip_address")
            && crate::strutil::str_eq(fields[11].0.as_str(), "user_agent")
            && crate::strutil::str_eq(fields[12].0.as_str(), "request_id")
            && crate::strutil::str_eq(fields[13].0.as_str(), "previous_hash")
            && crate::strutil::str_eq(fields[14].0.as_str(), "event_hash");
        if !keys_ok {
            return None;
        }
        let id = match &fields[0].1 {
            JsonValue::Str(s) => s.clone(),
            _ => {
                return None;
            },
        };
        let timestamp_ms = match &fields[1].1 {
            JsonValue::Int(i) => *i,
            _ => {
                return None;
            },
        };
        let event_type = match &fields[2].1 {
            JsonValue::Str(s) => match AuditEventType::from_str_opt(s.as_str()) {
                Option::Some(t) => t,
                Option::None => {
                    return None;
                },
            },
            _ => {
                return None;
            },
        };
        let user_id = match json_to_opt_str(&fields[3].1) {
            Option::Some(o) => o,
            Option::None => {
                return None;
            },
        };
        let action = match &fields[4].1 {
            JsonValue::Str(s) => s.clone(),
            _ => {
                return None;
            },
        };
        let resource_type = match &fields[5].1 {
            JsonValue::Str(s) => match ResourceType::from_str_opt(s.as_str()) {
                Option::Some(t) => t,
                Option::None => {
                    return None;
                },
            },
            _ => {
                return None;
            },
        };
        let resource_id = match &fields[6].1 {
            JsonValue::Str(s) => s.clone(),
            _ => {
                return None;
            },
        };
        let tag = match &fields[7].1 {
            JsonValue::Str(s) => s,
            _ => {
                return None;
            },
        };
        let message = match json_to_opt_str(&fields[8].1) {
            Option::Some(o) => o,
            Option::None => {
                return None;
            },
        };
        let result = if crate::strutil::str_eq(tag.as_str(), "success") {
            AuditResult::Success
        } else if crate::strutil::str_eq(tag.as_str(), "partial_success") {
            AuditResult::PartialSuccess
        } else if crate::strutil::str_eq(tag.as_str(), "failure") {
            match message {
                Option::Some(m) => AuditResult::Failure(m),
                Option::None => AuditResult::Failure(String::new()),
            }
        } else {
            return None;
        };
        let details = fields[9].1.clone();
        let ip_address = match json_to_opt_str(&fields[10].1) {
            Option::Some(o) => o,
            Option::None => {
                return None;
            },
        };
        let user_agent = match json_to_opt_str(&fields[11].1) {
            Option::Some(o) => o,
            Option::None => {
                return None;
            },
        };
        let request_id = match json_to_opt_str(&fields[12].1) {
            Option::Some(o) => o,
            Option::None => {
                return None;
            },
        };
        let previous_hash = match json_to_opt_str(&fields[13].1) {
            Option::Some(o) => o,
            Option::None => {
                return None;
            },
        };
        let event_hash = match json_to_opt_str(&fields[14].1) {
            Option::Some(o) => o,
            Option::None => {
                return None;
            },
        };
        let ev = AuditEvent {
            id,
            timestamp_ms,
            event_type,
            user_id,
            action,
            resource_type,
            resource_id,
            result,
            details,
            ip_address,
            user_agent,
            request_id,
            previous_hash,
            event_hash,
        };
        proof {
            let fs = crate::json::jv_model_fields(fields@);
            assert(spec_event_json_shaped(fs));
            assert(spec_event_from_json(v@) == Option::Some(ev@));
        }
        Some(ev)
    }
}

} // verus!
