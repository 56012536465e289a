//! Failures of the persistence operations.
use vstd::prelude::*;

verus! {

/// Why an operation on durable storage was refused. Every refusal leaves the
/// store and durable storage exactly as they were.
#[derive(Clone, Copy, Debug, PartialEq, Eq, Structural)]
pub enum PersistError {
    /// An offset or a size reaches past the current durable allocation.
    OutOfBounds,
    /// The bytes are not a snapshot envelope: the format tag is missing.
    BadEnvelope,
    /// Durable storage cannot grow as far as the operation needs, or a buffer
    /// of the requested size cannot be held in working memory.
    OutOfMemory,
}

} // verus!
