//! The auth core: JWT issuance and verification, API keys, RBAC.

pub mod models;
pub mod rbac;
pub mod jwt;
pub mod api_keys;
pub mod middleware;
