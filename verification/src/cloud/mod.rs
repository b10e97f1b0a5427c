//! Public (cloud) UI helpers.
pub mod css;
pub mod handlers;
pub mod templates;
