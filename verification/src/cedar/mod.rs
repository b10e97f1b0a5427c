//! Cedar policy and schema source generation.
pub mod policy_gen;
pub mod schema_gen;
