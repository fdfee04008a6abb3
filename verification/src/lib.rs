//! Full backup and restore of relational/document databases with on-the-fly
//! data anonymization, compression and encryption.
//!
//! The core is a streaming pipeline: a source produces a dump byte stream, a
//! transformer pipeline rewrites or drops sensitive column values in flight,
//! and a bridge stores the result — compressed, then encrypted — in an
//! object store, cataloguing every completed backup in an index.  A restore
//! resolves a backup by name or as `latest`, reverses exactly the envelope
//! layers recorded on it, and hands the original stream to a destination.
//!
//! - [`catalog`]: backups, the index, listing order and `latest` resolution
//! - [`envelope`]: the compression/encryption layers and their round trip
//! - [`transformer`]: column rules, skip rules, and the pipeline
//! - [`tasks`]: the bridge and the two transfer tasks with their progress trail
//! - [`config`]: run configuration and the decisions taken from it
//! - [`report`]: the catalog listing as a reporting collaborator consumes it
//! - [`progress`]: the non-blocking presentation consumer's decisions

pub mod catalog;
pub mod config;
pub mod envelope;
pub mod errors;
pub mod progress;
pub mod report;
pub mod tasks;
pub mod transformer;
