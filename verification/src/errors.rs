//! The error taxonomy of the crate: what the partitioned cache, the
//! schema source, the record encoder, and the batched publisher report
//! to their callers.

use vstd::prelude::*;

verus! {

/// Failures of the partitioned cache and the shared store protocol.
#[derive(Debug, Clone, PartialEq, Eq)]
pub enum CacheError {
    /// The metadata entry for the requested key is absent.
    Miss,
    /// The backing store reported a transport or connection failure.
    Store(String),
    /// A value could not be serialized before storing.
    Serialization(String),
    /// A stored payload or metadata entry is malformed.
    Decode(String),
    /// The number of non-absent chunks differs from the chunk count
    /// the metadata entry announced; nothing is reconstructed.
    PartitionMismatch { expected: usize, found: usize },
}

/// Failures of schema retrieval.
#[derive(Debug, Clone, PartialEq, Eq)]
pub enum SchemaError {
    /// The schema authority could not produce a definition.
    Fetch(String),
    /// A definition was fetched but is not a usable record schema.
    Parse(String),
}

/// Failures of encoding one record against a schema.
#[derive(Debug, Clone, PartialEq, Eq)]
pub enum EncodeError {
    /// The record lacks a field the schema declares non-nullable.
    Validation { missing_field: String },
    /// The reconciled record could not be encoded to the wire format.
    Encode(String),
}

/// Failures of handing a record to the batched publisher.
#[derive(Debug, Clone, PartialEq, Eq)]
pub enum PublishError {
    /// The bounded intake queue is at capacity; the caller decides
    /// whether to retry or drop.
    QueueFull,
}

} // verus!
