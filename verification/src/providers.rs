//! The provider capability: LLM completion behind a registry of names.

use vstd::prelude::*;
use crate::json::JsonValue;
use crate::strutil::copy_str;

verus! {

/// A completion request handed to a provider.
///
/// `temperature_milli` carries the sampling temperature in thousandths;
/// the core hands it through untouched.
#[derive(Debug, Clone)]
pub struct CompletionRequest {
    pub model: String,
    pub prompt: String,
    pub system: Option<String>,
    pub temperature_milli: Option<u32>,
    pub max_tokens: Option<u32>,
    pub extra: Vec<(String, JsonValue)>,
}

/// A provider's answer to a completion request.
#[derive(Debug, Clone)]
pub struct CompletionResponse {
    pub text: String,
    pub model: String,
    pub tokens_used: Option<u32>,
    pub metadata: Vec<(String, JsonValue)>,
}

/// Why a provider call failed.
#[derive(Debug, Clone)]
pub enum ProviderError {
    /// The HTTP transport failed.
    HttpError(String),
    /// The provider rejected the credentials.
    AuthError(String),
    /// The provider throttled the call.
    RateLimitExceeded,
    /// The provider rejected the request itself.
    InvalidRequest(String),
    /// A provider-specific failure.
    ProviderSpecific(String),
    /// Encoding or decoding the wire format failed.
    SerializationError(String),
    /// The call ran out of time.
    Timeout,
    /// Anything else.
    Unknown(String),
}

impl ProviderError {
    /// A human-readable form of the error.
    pub fn message(&self) -> String {
        match self {
            ProviderError::HttpError(m) => {
                let mut s = copy_str("HTTP request failed: ");
                s.append(m.as_str());
                s
            },
            ProviderError::AuthError(m) => {
                let mut s = copy_str("authentication failed: ");
                s.append(m.as_str());
                s
            },
            ProviderError::RateLimitExceeded => copy_str("rate limit exceeded"),
            ProviderError::InvalidRequest(m) => {
                let mut s = copy_str("invalid request: ");
                s.append(m.as_str());
                s
            },
            ProviderError::ProviderSpecific(m) => {
                let mut s = copy_str("provider error: ");
                s.append(m.as_str());
                s
            },
            ProviderError::SerializationError(m) => {
                let mut s = copy_str("serialization error: ");
                s.append(m.as_str());
                s
            },
            ProviderError::Timeout => copy_str("request timed out"),
            ProviderError::Unknown(m) => {
                let mut s = copy_str("unknown error: ");
                s.append(m.as_str());
                s
            },
        }
    }

    /// Whether the scheduler treats the failure as worth another attempt.
    pub fn is_retryable(&self) -> (r: bool)
        ensures
            r == (self is RateLimitExceeded || self is Timeout),
    {
        match self {
            ProviderError::RateLimitExceeded => true,
            ProviderError::Timeout => true,
            _ => false,
        }
    }
}

/// The completion capability a provider implements. Implementations live
/// with their transports outside the core; nothing is assumed of what a
/// call returns.
pub trait LLMProvider: Sized {
    /// The name the provider registers under.
    fn name(&self) -> String;

    /// One completion call.
    fn complete(&mut self, request: &CompletionRequest) -> Result<CompletionResponse, ProviderError>;

    /// Whether the provider is reachable and willing.
    fn health_check(&mut self) -> Result<(), ProviderError>;
}

} // verus!
