//! Verified core of the assistant control panel: the incremental log tail
//! reader, the settings model and its edits, and the small decisions around
//! the health probe, the credential cache and file lookup.

pub mod logs;
mod text;
pub mod models;
pub mod settings;
pub mod health;
pub mod paths;
pub mod auth;
