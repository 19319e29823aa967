//! Workflow orchestration core: typed workflow definitions, DAG construction
//! with cycle detection, a deterministic step scheduler with per-step results,
//! a template-driven execution context, a hash-chained audit log, and an auth
//! core (JWT issuance/verification, API keys, RBAC).

pub mod strutil;
pub mod json;
pub mod errors;
pub mod workflow;
pub mod dag;
pub mod retry;
pub mod context;
pub mod clock;
pub mod providers;
pub mod executor;
pub mod hashing;
pub mod ident;
pub mod audit;
pub mod auth;
pub mod adapters;
pub mod benchmarks;
