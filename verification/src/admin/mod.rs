pub mod auth;
pub mod error;
pub mod form;
pub mod handlers;
pub mod refs;
pub mod templates;
pub mod views;
