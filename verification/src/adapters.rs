//! Adapters to optional upstream services. Each is a thin, disableable
//! integration point: disabled adapters answer every call as a no-op.

pub mod connector_hub;
pub mod data_vault;
pub mod memory_graph;
pub mod router_l2;
