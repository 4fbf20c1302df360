//! Mailbox synchronization engine.
//!
//! The crate holds the decisions of a mail client that mirrors remote
//! folders into a local cache: which folders need a full or an incremental
//! fetch, how a full fetch is cut into windows, how fetched envelopes are
//! merged into the cache, and how the per-account watch loop reacts to
//! connection events. Network and database access live with the caller,
//! which performs the actions that the state machines here hand out.

pub mod accounts;
pub mod attachments;
pub mod emails;
pub mod enrichment;
pub mod llm;
pub mod providers;
pub mod queries;
pub mod security;
pub mod sync;
pub mod text;
