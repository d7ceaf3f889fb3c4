//! Verified core of a Docker Compose stack manager.
pub mod text;
pub mod convert;
pub mod templates;
pub mod label_templates;
pub mod containers;
pub mod config;
pub mod models;
pub mod state;
pub mod auth;
pub mod stacks;
pub mod notifier;
pub mod sync;
pub mod records;
pub mod json;
