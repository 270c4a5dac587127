//! The failures that the tracker recovers from.

use vstd::prelude::*;

verus! {

/// A failure of one menu operation. The store is left as it was.
#[derive(Debug, Clone, Copy, PartialEq, Eq, Structural)]
pub enum TaskError {
    /// The text entered for a task number is not an unsigned integer.
    ParseFailure,
    /// No task in the store carries this number.
    NotFound(u32),
}

/// A failure to obtain the persisted tasks at startup.
#[derive(Debug, Clone, Copy, PartialEq, Eq, Structural)]
pub enum StorageError {
    /// The storage file could not be read.
    ReadFailure,
    /// The storage file does not hold a well-formed list of tasks.
    ParseFailure,
}

} // verus!
