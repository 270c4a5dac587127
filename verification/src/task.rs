//! The task record and its mathematical view.

use vstd::prelude::*;

verus! {

/// What a task is, mathematically: its number, its two texts and its flag.
pub struct TaskView {
    pub id: nat,
    pub title: Seq<char>,
    pub description: Seq<char>,
    pub completed: bool,
}

/// A single to-do item.
#[derive(Debug)]
pub struct Task {
    pub id: u32,
    pub title: String,
    pub description: String,
    pub completed: bool,
}

impl View for Task {
    type V = TaskView;

    open spec fn view(&self) -> TaskView {
        TaskView {
            id: self.id as nat,
            title: self.title@,
            description: self.description@,
            completed: self.completed,
        }
    }
}

impl Task {
    /// Creates a task that is not yet completed.
    pub fn new(id: u32, title: String, description: String) -> (task: Task)
        ensures
            task@ == (TaskView {
                id: id as nat,
                title: title@,
                description: description@,
                completed: false,
            }),
    {
        Task { id, title, description, completed: false }
    }
}

} // verus!
