//! The audit log: tamper-evident events over pluggable storage.

pub mod models;
pub mod storage;
pub mod logger;
pub mod retention;
