//! Starting a session from what storage gave.

use vstd::prelude::*;
use crate::error::StorageError;
use crate::store::{views, TaskStore};
use crate::task::Task;

verus! {

/// The store that a session starts from, and the failure to report, if any.
/// Tasks that were read come through unchanged and in order; a failure to
/// read or to parse gives the empty store and is handed back for reporting.
pub fn load_tasks(read: Result<Vec<Task>, StorageError>) -> (loaded: (TaskStore, Option<StorageError>))
    ensures
        match read {
            Ok(tasks) => loaded.0.tasks == tasks && loaded.0@ == views(tasks@) && loaded.1 is None,
            Err(failure) => loaded.0@.len() == 0 && loaded.1 == Some(failure),
        },
{
    match read {
        Ok(tasks) => (TaskStore { tasks }, None),
        Err(failure) => (TaskStore::new(), Some(failure)),
    }
}

} // verus!
