//! The decisions of the HTTP API: requests to objects, objects to list items.
pub mod backup_policies;
pub mod backups;
pub mod common;
pub mod repo_store;
pub mod restores;
pub mod schedule;
pub mod state;
