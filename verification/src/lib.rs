//! Infrastructure primitives for persisting oversized values in a
//! size-limited key-value store and for delivering schema-validated
//! event records to a message broker in batches.
//!
//! The two central pieces are the partitioned cache (splitting a large
//! byte payload into fixed-size chunks with a metadata entry, and
//! reassembling it with integrity checks) and the batched publisher
//! (a bounded queue of records grouped per destination and flushed
//! under count, byte-size, or time pressure, each record reconciled
//! against a versioned binary schema before encoding).
//!
//! All store, broker, and clock effects are performed by the embedding
//! program; the functions here compute the keys, payloads, decisions,
//! and state transitions, and are verified against their contracts.

pub mod config;
pub mod datastore;
pub mod encoder;
pub mod errors;
pub mod json;
pub mod local_cache;
pub mod logging;
pub mod metadata;
pub mod numeric;
pub mod partition;
pub mod partitioned_cache;
pub mod publisher;
pub mod records;
pub mod schema_source;
pub mod tiered;
