//! Authorization building blocks: the Cedar namespace, role hierarchy,
//! principal-claim mappings and decision types.
pub mod adapters;
pub mod engine;
pub mod loader;
pub mod namespace;
pub mod principal_claims;
pub mod read_scope;
pub mod role_ranks;
pub mod store;
