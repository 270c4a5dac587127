//! A small task tracker: task records, an ordered task store with its
//! operations, the reading of entered lines, the menu dialogue as a state
//! machine, and the policy for starting from persisted state.

pub mod error;
pub mod input;
pub mod session;
pub mod storage;
pub mod store;
pub mod task;
