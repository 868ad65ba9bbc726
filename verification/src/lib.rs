//! Verified core of the Proteus backup operator for Kubernetes.
pub mod agent_work;
pub mod api;
pub mod backup_run;
pub mod chunking;
pub mod clock;
pub mod crd;
pub mod crontab;
pub mod crypto;
pub mod data_plane;
pub mod error;
pub mod fingerprint;
pub mod gc;
pub mod hash;
pub mod identity;
pub mod materialize;
pub mod mover;
pub mod order;
pub mod pipeline;
pub mod policy_run;
pub mod progress;
pub mod recipe;
pub mod repository;
pub mod restore_run;
pub mod retention;
pub mod schedule;
pub mod search;
pub mod snapshot;
pub mod stream;
pub mod text;
pub mod timing;
pub mod ui;
