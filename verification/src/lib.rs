//! Verified core of a bidirectional synchronization engine between a
//! versioned remote bibliographic service and a local mirror (relational
//! rows plus an object store for attachment blobs).
//!
//! The crate holds the protocol logic: the per-entity sync state machine,
//! response classification, batching, the conflict and tombstone policy,
//! the outbound queue semantics with exponential backoff, and attachment
//! content integrity. Transport, database and blob I/O live outside and
//! feed plain values in and out of these functions.

pub mod attach;
pub mod collection;
pub mod config;
pub mod engine;
pub mod error;
pub mod item;
pub mod keyorder;
pub mod laws;
pub mod library;
pub mod numtext;
pub mod protocol;
pub mod queue;
pub mod registry;
pub mod store;
pub mod textmeta;
pub mod types;
pub mod worker;
