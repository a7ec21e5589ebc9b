//! Error values returned by the store's mutating operations.

use vstd::prelude::*;

verus! {

/// What went wrong in a store operation.
#[derive(Clone, Copy, Debug, PartialEq, Eq, Structural)]
pub enum ErrorKind {
    /// A project with the same short name is already registered.
    AlreadyExists,
    /// A required field was empty or a referenced project or checkpoint
    /// does not exist.
    InvalidInput,
}

/// An error from a store operation: the kind of failure plus a
/// human-readable message.
#[derive(Clone, Debug)]
pub struct CheckpointDbError {
    pub error_kind: ErrorKind,
    pub message: String,
}

impl CheckpointDbError {
    /// The kind of failure this error reports.
    pub fn kind(&self) -> (r: ErrorKind)
        ensures
            r == self.error_kind,
    {
        self.error_kind
    }
}

} // verus!
