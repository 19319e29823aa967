//! Error types of the orchestration core.

use vstd::prelude::*;

verus! {

/// Why a template or condition could not be evaluated.
#[derive(Debug, Clone, PartialEq, Eq)]
pub enum RenderError {
    /// A `{{` without a matching `}}`.
    UnclosedPlaceholder,
    /// The placeholder path names no known root or no existing field.
    UnknownVariable(String),
    /// The value a placeholder resolved to is not a renderable scalar.
    NotAScalar(String),
    /// A condition evaluated to something other than `true` or `false`.
    NotABoolean(String),
}

impl RenderError {
    /// A human-readable form of the error.
    pub fn message(&self) -> String {
        match self {
            RenderError::UnclosedPlaceholder => {
                let mut s = String::new();
                s.append("a placeholder is never closed");
                s
            },
            RenderError::UnknownVariable(m) => {
                let mut s = String::new();
                s.append("unknown variable: ");
                s.append(m.as_str());
                s
            },
            RenderError::NotAScalar(m) => {
                let mut s = String::new();
                s.append("not a renderable scalar: ");
                s.append(m.as_str());
                s
            },
            RenderError::NotABoolean(m) => {
                let mut s = String::new();
                s.append("not a boolean: ");
                s.append(m.as_str());
                s
            },
        }
    }
}

/// Errors surfaced by workflow validation, DAG construction and execution.
#[derive(Debug, Clone, PartialEq, Eq)]
pub enum OrchestratorError {
    /// The workflow violates a schema invariant.
    Validation(String),
    /// The dependency graph is malformed (duplicate id, unknown reference).
    InvalidDag(String),
    /// The dependency graph has a cycle; the witness path starts and ends
    /// on the same step id.
    CycleDetected(Vec<String>),
    /// A step id named by the execution order is not declared.
    StepNotFound(String),
    /// A step's config variant does not match its declared kind.
    InvalidStepConfig(String, String),
    /// A template or condition failed to evaluate.
    Render(RenderError),
    /// An attempt exceeded the step's timeout budget.
    Timeout(u64),
    /// Any other failure, as a message.
    Other(String),
}

impl OrchestratorError {
    /// A human-readable form of the error.
    pub fn message(&self) -> String {
        match self {
            OrchestratorError::Validation(m) => {
                let mut s = String::new();
                s.append("workflow validation failed: ");
                s.append(m.as_str());
                s
            },
            OrchestratorError::InvalidDag(m) => {
                let mut s = String::new();
                s.append("invalid dag: ");
                s.append(m.as_str());
                s
            },
            OrchestratorError::CycleDetected(_) => {
                let mut s = String::new();
                s.append("cycle detected in workflow dependencies");
                s
            },
            OrchestratorError::StepNotFound(id) => {
                let mut s = String::new();
                s.append("step not found: ");
                s.append(id.as_str());
                s
            },
            OrchestratorError::InvalidStepConfig(id, reason) => {
                let mut s = String::new();
                s.append("invalid config for step ");
                s.append(id.as_str());
                s.append(": ");
                s.append(reason.as_str());
                s
            },
            OrchestratorError::Render(_) => {
                let mut s = String::new();
                s.append("template rendering failed");
                s
            },
            OrchestratorError::Timeout(_) => {
                let mut s = String::new();
                s.append("step timed out");
                s
            },
            OrchestratorError::Other(m) => {
                let mut s = String::new();
                s.append(m.as_str());
                s
            },
        }
    }
}

} // verus!
