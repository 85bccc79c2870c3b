//! Builds launcher manifests for game depot snapshots: a parser for depot
//! reports, a resolver from snapshots to game versions, and a merge engine
//! for the per-platform release history.

pub mod assets;
pub mod catalog;
pub mod depot;
pub mod history;
pub mod options;
pub mod platform;
pub mod release;
pub mod scan;
pub mod semantic;
pub mod text;
pub mod timestamp;
pub mod version_table;
