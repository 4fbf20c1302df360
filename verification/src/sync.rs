//! The synchronization engine: checkpoints, fetch plans, the per-folder
//! pass and the per-account watch supervisor.

pub mod cache;
pub mod checkpoint;
pub mod envelope;
pub mod orchestrator;
pub mod pass;
pub mod pass_laws;
pub mod registry;
pub mod roles;
pub mod run_laws;
pub mod store;
pub mod watch;
pub mod window;
pub mod writer;
