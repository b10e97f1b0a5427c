//! Verified core of the SchemaForge service layer.
pub mod authz;
pub mod text;
pub mod form;
pub mod export_config;
pub mod export_rate_limit;
pub mod cedar;
pub mod cloud;
pub mod error;
pub mod admin;
pub mod decimal;
pub mod graphql;
pub mod export_bundle;
pub mod order;
pub mod email;
pub mod access;
pub mod auth;
pub mod config;
pub mod export_job;
pub mod extension;
pub mod definition;
