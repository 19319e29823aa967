//! The audit logger: a hash chain over a storage backend.
//!
//! One writer at a time stamps each event with the previous persisted
//! event's digest and its own, then hands it to storage. Within a logger's
//! stream the chain invariant holds: the head carries no predecessor
//! digest, every later event carries exactly the digest of the one before
//! it, and every digest is the SHA-256 of the event's canonical text. A
//! disabled logger accepts every call as a no-op.

use vstd::prelude::*;
use crate::audit::models::{AuditEvent, AuditEventSpec, AuditEventType, AuditResult,
    ResourceType, spec_event_digest, opt_view};
use crate::audit::storage::{AuditStorage, StorageError, InMemoryAuditStorage};
use crate::json::JsonValue;
use crate::strutil::copy_str;
use crate::ident::rfc3339_utc;

verus! {

/// The chain invariant of a logger's own stream: the head has no
/// predecessor digest, every later event points at the digest before it,
/// and each event carries the digest of its own canonical text.
pub open spec fn spec_chain_ok(events: Seq<AuditEventSpec>) -> bool {
    &&& forall|i: int| 0 <= i < events.len()
        ==> (#[trigger] events[i]).event_hash == Option::Some(spec_event_digest(events[i]))
    &&& events.len() > 0 ==> events[0].previous_hash is None
    &&& forall|i: int| 1 <= i < events.len()
        ==> (#[trigger] events[i]).previous_hash == events[i - 1].event_hash
}

/// A chained stream read back pair by pair: each event's predecessor
/// digest is exactly the digest of the event before it, and recomputing
/// any event's digest from its stored fields gives the stored digest.
pub proof fn lemma_hash_chain(events: Seq<AuditEventSpec>, i: int)
    requires
        spec_chain_ok(events),
        1 <= i < events.len(),
    ensures
        events[i].previous_hash == Option::Some(spec_event_digest(events[i - 1])),
        events[i].event_hash == Option::Some(spec_event_digest(events[i])),
{
    assert(events[i - 1].event_hash == Option::Some(spec_event_digest(events[i - 1])));
}

/// The audit logger: stamps and persists events, one chain per logger.
pub struct AuditLogger<S: AuditStorage> {
    storage: S,
    enabled: bool,
    previous_hash: Option<String>,
    /// The stream this logger has persisted, in order.
    written: Ghost<Seq<AuditEventSpec>>,
    /// Whatever the backend held before this logger began.
    base: Ghost<Seq<AuditEventSpec>>,
}

impl<S: AuditStorage> AuditLogger<S> {
    /// The logger's invariant: the backend holds its prior contents and
    /// then exactly this logger's chained stream, and the pending
    /// predecessor digest is the stream's last digest.
    pub closed spec fn wf(self) -> bool {
        &&& self.storage.view() == self.base@ + self.written@
        &&& spec_chain_ok(self.written@)
        &&& opt_view(self.previous_hash) == (if self.written@.len() == 0 {
            Option::<Seq<char>>::None
        } else {
            self.written@.last().event_hash
        })
    }

    /// The stream this logger has persisted.
    pub closed spec fn written_view(self) -> Seq<AuditEventSpec> {
        self.written@
    }

    /// What the backend held before this logger began.
    pub closed spec fn base_view(self) -> Seq<AuditEventSpec> {
        self.base@
    }

    /// The model of the backend's whole stream.
    pub closed spec fn storage_view(self) -> Seq<AuditEventSpec> {
        self.storage.view()
    }

    /// Whether the logger records anything at all.
    pub closed spec fn spec_enabled(self) -> bool {
        self.enabled
    }

    /// A logger over a backend; its chain starts after whatever the
    /// backend already holds.
    pub fn new(storage: S) -> (r: AuditLogger<S>)
        ensures
            r.wf(),
            r.spec_enabled(),
            r.written_view() == Seq::<AuditEventSpec>::empty(),
            r.base_view() == storage.view(),
    {
        let r = AuditLogger {
            storage,
            enabled: true,
            previous_hash: None,
            written: Ghost(Seq::empty()),
            base: Ghost(storage.view()),
        };
        proof {
            assert(r.storage.view() =~= r.base@ + r.written@);
        }
        r
    }

    /// A logger that records nothing.
    pub fn disabled() -> (r: AuditLogger<InMemoryAuditStorage>)
        ensures
            r.wf(),
            !r.spec_enabled(),
            r.written_view() == Seq::<AuditEventSpec>::empty(),
    {
        let storage = InMemoryAuditStorage::new();
        let r = AuditLogger {
            storage,
            enabled: false,
            previous_hash: None,
            written: Ghost(Seq::empty()),
            base: Ghost(Seq::empty()),
        };
        proof {
            assert(r.storage.view() =~= r.base@ + r.written@);
        }
        r
    }

    /// Whether the logger records anything.
    pub fn is_enabled(&self) -> (r: bool)
        ensures
            r == self.spec_enabled(),
    {
        self.enabled
    }

    /// The storage behind the logger.
    pub fn storage(&self) -> (r: &S)
        ensures
            r.view() == self.storage_view(),
    {
        &self.storage
    }

    /// Stamps the event into the chain and persists it: its predecessor
    /// digest is the last persisted digest, its own digest is computed
    /// over its canonical text, and the chain invariant is kept. Disabled
    /// loggers accept and drop everything.
    #[verifier::rlimit(100)]
    pub fn log_event(&mut self, event: AuditEvent) -> (r: Result<(), StorageError>)
        requires
            old(self).wf(),
        ensures
            final(self).wf(),
            final(self).spec_enabled() == old(self).spec_enabled(),
            final(self).base_view() == old(self).base_view(),
            !old(self).spec_enabled() ==> r is Ok
                && final(self).written_view() == old(self).written_view(),
            old(self).spec_enabled() && r is Ok ==> final(self).written_view()
                == old(self).written_view().push(final(self).written_view().last())
                && final(self).written_view().len() == old(self).written_view().len() + 1
                && spec_matches_stamped(
                    final(self).written_view().last(),
                    event@,
                    old(self).written_view(),
                ),
            r is Err ==> final(self).written_view() == old(self).written_view(),
    {
        if !self.enabled {
            return Ok(());
        }
        let mut event = event;
        event.previous_hash = crate::audit::models::clone_opt_string(&self.previous_hash);
        let digest = event.compute_hash();
        event.event_hash = Some(digest.clone());
        let ghost stamped = event@;
        match self.storage.store(&event) {
            Result::Ok(_) => {},
            Result::Err(e) => {
                // the backend kept its stream; the chain head stays put
                return Err(e);
            },
        }
        self.previous_hash = Some(digest);
        proof {
            self.written@ = self.written@.push(stamped);
            assert(self.storage.view() =~= self.base@ + self.written@);
            assert(spec_chain_ok(self.written@)) by {
                let w = self.written@;
                let w0 = old(self).written_view();
                assert forall|i: int| 0 <= i < w.len()
                    implies (#[trigger] w[i]).event_hash
                        == Option::Some(spec_event_digest(w[i])) by {
                    if i < w0.len() {
                        assert(w[i] == w0[i]);
                    } else {
                        assert(w[i] == stamped);
                        assert(stamped.event_hash == Option::Some(spec_event_digest(stamped)));
                    }
                }
                assert forall|i: int| 1 <= i < w.len()
                    implies (#[trigger] w[i]).previous_hash == w[i - 1].event_hash by {
                    if i < w0.len() {
                        assert(w[i] == w0[i]);
                        assert(w[i - 1] == w0[i - 1]);
                    } else {
                        assert(w[i] == stamped);
                        assert(w[i - 1] == w0.last());
                    }
                }
            }
        }
        Ok(())
    }
}

/// How a stamped event relates to what was handed in and to the chain so
/// far: all payload fields kept, predecessor digest taken from the
/// stream's tail, own digest recomputed.
pub open spec fn spec_matches_stamped(
    stamped: AuditEventSpec,
    given: AuditEventSpec,
    prior: Seq<AuditEventSpec>,
) -> bool {
    &&& stamped == (AuditEventSpec {
        previous_hash: stamped.previous_hash,
        event_hash: stamped.event_hash,
        ..given
    })
    &&& stamped.previous_hash == (if prior.len() == 0 {
        Option::<Seq<char>>::None
    } else {
        prior.last().event_hash
    })
    &&& stamped.event_hash == Option::Some(spec_event_digest(stamped))
}

impl<S: AuditStorage> AuditLogger<S> {
    /// Records an authentication attempt against a user.
    #[verifier::rlimit(100)]
    pub fn log_auth_attempt(&mut self, user_id: &str, success: bool, ip_address: Option<String>)
        -> (r: Result<(), StorageError>)
        requires
            old(self).wf(),
        ensures
            final(self).wf(),
            final(self).spec_enabled() == old(self).spec_enabled(),
            old(self).spec_enabled() && r is Ok ==> final(self).written_view().len()
                == old(self).written_view().len() + 1
                && final(self).written_view().last().event_type == AuditEventType::Authentication
                && final(self).written_view().last().resource_type == ResourceType::User
                && final(self).written_view().last().resource_id == user_id@
                && (final(self).written_view().last().result is Success) == success,
            !old(self).spec_enabled() ==> r is Ok,
    {
        if !self.enabled {
            return Ok(());
        }
        let result = if success {
            AuditResult::Success
        } else {
            AuditResult::Failure(copy_str("authentication failed"))
        };
        let event = AuditEvent::new(
            AuditEventType::Authentication,
            copy_str("user authentication attempt"),
            ResourceType::User,
            copy_str(user_id),
            result,
        ).with_user_id(copy_str(user_id)).with_ip_address(match ip_address {
            Option::Some(ip) => ip,
            Option::None => String::new(),
        });
        self.log_event(event)
    }

    /// Records an authorization decision about one permission.
    #[verifier::rlimit(100)]
    pub fn log_authorization(&mut self, user_id: &str, permission: &str, resource_id: &str, allowed: bool)
        -> (r: Result<(), StorageError>)
        requires
            old(self).wf(),
        ensures
            final(self).wf(),
            final(self).spec_enabled() == old(self).spec_enabled(),
            old(self).spec_enabled() && r is Ok ==> final(self).written_view().len()
                == old(self).written_view().len() + 1
                && final(self).written_view().last().event_type == AuditEventType::Authorization
                && final(self).written_view().last().resource_id == resource_id@
                && (final(self).written_view().last().result is Success) == allowed,
            !old(self).spec_enabled() ==> r is Ok,
    {
        if !self.enabled {
            return Ok(());
        }
        let result = if allowed {
            AuditResult::Success
        } else {
            let mut m = copy_str("permission denied: ");
            m.append(permission);
            AuditResult::Failure(m)
        };
        let mut action = copy_str("authorization check: ");
        action.append(permission);
        let event = AuditEvent::new(
            AuditEventType::Authorization,
            action,
            ResourceType::User,
            copy_str(resource_id),
            result,
        ).with_user_id(copy_str(user_id));
        self.log_event(event)
    }

    /// Records one workflow execution with its outcome and duration.
    #[verifier::rlimit(100)]
    pub fn log_workflow_execution(&mut self, workflow_id: &str, user_id: &str, result: AuditResult, duration_ms: u64)
        -> (r: Result<(), StorageError>)
        requires
            old(self).wf(),
        ensures
            final(self).wf(),
            final(self).spec_enabled() == old(self).spec_enabled(),
            old(self).spec_enabled() && r is Ok ==> final(self).written_view().len()
                == old(self).written_view().len() + 1
                && final(self).written_view().last().event_type == AuditEventType::WorkflowExecution
                && final(self).written_view().last().resource_type == ResourceType::Workflow
                && final(self).written_view().last().resource_id == workflow_id@,
            !old(self).spec_enabled() ==> r is Ok,
    {
        if !self.enabled {
            return Ok(());
        }
        let mut dur = String::new();
        crate::context::push_u64_chars(&mut dur, duration_ms);
        let mut details: Vec<(String, JsonValue)> = Vec::new();
        details.push((copy_str("duration_ms"), JsonValue::Str(dur)));
        let event = AuditEvent::new(
            AuditEventType::WorkflowExecution,
            copy_str("workflow executed"),
            ResourceType::Workflow,
            copy_str(workflow_id),
            result,
        ).with_user_id(copy_str(user_id)).with_details(JsonValue::Obj(details));
        self.log_event(event)
    }

    /// Records a workflow's creation.
    #[verifier::rlimit(100)]
    pub fn log_workflow_create(&mut self, workflow_id: &str, workflow_name: &str, user_id: &str)
        -> (r: Result<(), StorageError>)
        requires
            old(self).wf(),
        ensures
            final(self).wf(),
            final(self).spec_enabled() == old(self).spec_enabled(),
            old(self).spec_enabled() && r is Ok ==> final(self).written_view().len()
                == old(self).written_view().len() + 1
                && final(self).written_view().last().event_type == AuditEventType::WorkflowCreate
                && final(self).written_view().last().resource_id == workflow_id@,
            !old(self).spec_enabled() ==> r is Ok,
    {
        if !self.enabled {
            return Ok(());
        }
        let mut details: Vec<(String, JsonValue)> = Vec::new();
        details.push((copy_str("workflow_name"), JsonValue::Str(copy_str(workflow_name))));
        let event = AuditEvent::new(
            AuditEventType::WorkflowCreate,
            copy_str("workflow created"),
            ResourceType::Workflow,
            copy_str(workflow_id),
            AuditResult::Success,
        ).with_user_id(copy_str(user_id)).with_details(JsonValue::Obj(details));
        self.log_event(event)
    }

    /// Records a workflow's update.
    #[verifier::rlimit(100)]
    pub fn log_workflow_update(&mut self, workflow_id: &str, user_id: &str, changes: JsonValue)
        -> (r: Result<(), StorageError>)
        requires
            old(self).wf(),
        ensures
            final(self).wf(),
            final(self).spec_enabled() == old(self).spec_enabled(),
            old(self).spec_enabled() && r is Ok ==> final(self).written_view().len()
                == old(self).written_view().len() + 1
                && final(self).written_view().last().event_type == AuditEventType::WorkflowUpdate
                && final(self).written_view().last().resource_id == workflow_id@,
            !old(self).spec_enabled() ==> r is Ok,
    {
        if !self.enabled {
            return Ok(());
        }
        let event = AuditEvent::new(
            AuditEventType::WorkflowUpdate,
            copy_str("workflow updated"),
            ResourceType::Workflow,
            copy_str(workflow_id),
            AuditResult::Success,
        ).with_user_id(copy_str(user_id)).with_details(changes);
        self.log_event(event)
    }

    /// Records a workflow's deletion.
    #[verifier::rlimit(100)]
    pub fn log_workflow_delete(&mut self, workflow_id: &str, user_id: &str)
        -> (r: Result<(), StorageError>)
        requires
            old(self).wf(),
        ensures
            final(self).wf(),
            final(self).spec_enabled() == old(self).spec_enabled(),
            old(self).spec_enabled() && r is Ok ==> final(self).written_view().len()
                == old(self).written_view().len() + 1
                && final(self).written_view().last().event_type == AuditEventType::WorkflowDelete
                && final(self).written_view().last().resource_id == workflow_id@,
            !old(self).spec_enabled() ==> r is Ok,
    {
        if !self.enabled {
            return Ok(());
        }
        let event = AuditEvent::new(
            AuditEventType::WorkflowDelete,
            copy_str("workflow deleted"),
            ResourceType::Workflow,
            copy_str(workflow_id),
            AuditResult::Success,
        ).with_user_id(copy_str(user_id));
        self.log_event(event)
    }

    /// Records an access to a named secret.
    #[verifier::rlimit(100)]
    pub fn log_secret_access(&mut self, secret_key: &str, user_id: &str, accessed_at_ms: i64)
        -> (r: Result<(), StorageError>)
        requires
            old(self).wf(),
        ensures
            final(self).wf(),
            final(self).spec_enabled() == old(self).spec_enabled(),
            old(self).spec_enabled() && r is Ok ==> final(self).written_view().len()
                == old(self).written_view().len() + 1
                && final(self).written_view().last().event_type == AuditEventType::SecretAccess
                && final(self).written_view().last().resource_type == ResourceType::Secret
                && final(self).written_view().last().resource_id == secret_key@,
            !old(self).spec_enabled() ==> r is Ok,
    {
        if !self.enabled {
            return Ok(());
        }
        let mut details: Vec<(String, JsonValue)> = Vec::new();
        details.push((copy_str("accessed_at"), JsonValue::Str(rfc3339_utc(accessed_at_ms))));
        let event = AuditEvent::new(
            AuditEventType::SecretAccess,
            copy_str("secret accessed"),
            ResourceType::Secret,
            copy_str(secret_key),
            AuditResult::Success,
        ).with_user_id(copy_str(user_id)).with_details(JsonValue::Obj(details));
        self.log_event(event)
    }

    /// Records a configuration change.
    #[verifier::rlimit(100)]
    pub fn log_config_change(&mut self, config_key: &str, old_value: Option<&str>, new_value: &str, changed_by: &str)
        -> (r: Result<(), StorageError>)
        requires
            old(self).wf(),
        ensures
            final(self).wf(),
            final(self).spec_enabled() == old(self).spec_enabled(),
            old(self).spec_enabled() && r is Ok ==> final(self).written_view().len()
                == old(self).written_view().len() + 1
                && final(self).written_view().last().event_type == AuditEventType::ConfigChange
                && final(self).written_view().last().resource_id == config_key@,
            !old(self).spec_enabled() ==> r is Ok,
    {
        if !self.enabled {
            return Ok(());
        }
        let mut details: Vec<(String, JsonValue)> = Vec::new();
        match old_value {
            Option::Some(v) => {
                details.push((copy_str("old_value"), JsonValue::Str(copy_str(v))));
            },
            Option::None => {
                details.push((copy_str("old_value"), JsonValue::Null));
            },
        }
        details.push((copy_str("new_value"), JsonValue::Str(copy_str(new_value))));
        let event = AuditEvent::new(
            AuditEventType::ConfigChange,
            copy_str("configuration changed"),
            ResourceType::Configuration,
            copy_str(config_key),
            AuditResult::Success,
        ).with_user_id(copy_str(changed_by)).with_details(JsonValue::Obj(details));
        self.log_event(event)
    }

    /// Records an API key's creation.
    #[verifier::rlimit(100)]
    pub fn log_api_key_create(&mut self, key_id: &str, user_id: &str, scopes: Vec<String>)
        -> (r: Result<(), StorageError>)
        requires
            old(self).wf(),
        ensures
            final(self).wf(),
            final(self).spec_enabled() == old(self).spec_enabled(),
            old(self).spec_enabled() && r is Ok ==> final(self).written_view().len()
                == old(self).written_view().len() + 1
                && final(self).written_view().last().event_type == AuditEventType::ApiKeyCreate
                && final(self).written_view().last().resource_type == ResourceType::ApiKey
                && final(self).written_view().last().resource_id == key_id@,
            !old(self).spec_enabled() ==> r is Ok,
    {
        if !self.enabled {
            return Ok(());
        }
        let mut items: Vec<JsonValue> = Vec::new();
        let ns = scopes.len();
        let mut i: usize = 0;
        while i < ns
            invariant
                0 <= i <= ns,
                ns == scopes@.len(),
            decreases ns - i,
        {
            items.push(JsonValue::Str(scopes[i].clone()));
            i = i + 1;
        }
        let mut details: Vec<(String, JsonValue)> = Vec::new();
        details.push((copy_str("scopes"), JsonValue::Arr(items)));
        let event = AuditEvent::new(
            AuditEventType::ApiKeyCreate,
            copy_str("API key created"),
            ResourceType::ApiKey,
            copy_str(key_id),
            AuditResult::Success,
        ).with_user_id(copy_str(user_id)).with_details(JsonValue::Obj(details));
        self.log_event(event)
    }

    /// Records an API key's revocation.
    #[verifier::rlimit(100)]
    pub fn log_api_key_revoke(&mut self, key_id: &str, user_id: &str, reason: &str)
        -> (r: Result<(), StorageError>)
        requires
            old(self).wf(),
        ensures
            final(self).wf(),
            final(self).spec_enabled() == old(self).spec_enabled(),
            old(self).spec_enabled() && r is Ok ==> final(self).written_view().len()
                == old(self).written_view().len() + 1
                && final(self).written_view().last().event_type == AuditEventType::ApiKeyRevoke
                && final(self).written_view().last().resource_type == ResourceType::ApiKey
                && final(self).written_view().last().resource_id == key_id@,
            !old(self).spec_enabled() ==> r is Ok,
    {
        if !self.enabled {
            return Ok(());
        }
        let mut details: Vec<(String, JsonValue)> = Vec::new();
        details.push((copy_str("reason"), JsonValue::Str(copy_str(reason))));
        let event = AuditEvent::new(
            AuditEventType::ApiKeyRevoke,
            copy_str("API key revoked"),
            ResourceType::ApiKey,
            copy_str(key_id),
            AuditResult::Success,
        ).with_user_id(copy_str(user_id)).with_details(JsonValue::Obj(details));
        self.log_event(event)
    }

    /// Records one step execution within a workflow.
    #[verifier::rlimit(100)]
    pub fn log_step_execution(&mut self, workflow_id: &str, step_id: &str, user_id: &str, result: AuditResult, duration_ms: u64)
        -> (r: Result<(), StorageError>)
        requires
            old(self).wf(),
        ensures
            final(self).wf(),
            final(self).spec_enabled() == old(self).spec_enabled(),
            old(self).spec_enabled() && r is Ok ==> final(self).written_view().len()
                == old(self).written_view().len() + 1
                && final(self).written_view().last().event_type == AuditEventType::StepExecution
                && final(self).written_view().last().resource_type == ResourceType::Step
                && final(self).written_view().last().resource_id == step_id@,
            !old(self).spec_enabled() ==> r is Ok,
    {
        if !self.enabled {
            return Ok(());
        }
        let mut action = copy_str("step executed: ");
        action.append(step_id);
        let mut dur = String::new();
        crate::context::push_u64_chars(&mut dur, duration_ms);
        let mut details: Vec<(String, JsonValue)> = Vec::new();
        details.push((copy_str("workflow_id"), JsonValue::Str(copy_str(workflow_id))));
        details.push((copy_str("duration_ms"), JsonValue::Str(dur)));
        let event = AuditEvent::new(
            AuditEventType::StepExecution,
            action,
            ResourceType::Step,
            copy_str(step_id),
            result,
        ).with_user_id(copy_str(user_id)).with_details(JsonValue::Obj(details));
        self.log_event(event)
    }
}

} // verus!
