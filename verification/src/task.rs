//! A single to-do entry and its mathematical value.

use vstd::prelude::*;

verus! {

/// What a task is, as a mathematical value: the model over which every
/// contract of the store is stated.
pub struct TaskView {
    pub id: nat,
    pub description: Seq<char>,
    pub completed: bool,
    pub created_at: Seq<char>,
}

/// One to-do entry.
#[derive(Debug, Clone)]
pub struct Task {
    pub id: usize,
    pub description: String,
    pub completed: bool,
    pub created_at: String,
}

impl View for Task {
    type V = TaskView;

    open spec fn view(&self) -> TaskView {
        TaskView {
            id: self.id as nat,
            description: self.description@,
            completed: self.completed,
            created_at: self.created_at@,
        }
    }
}

impl PartialEq for Task {
    fn eq(&self, other: &Task) -> (r: bool) {
        self.id == other.id && self.description == other.description && self.completed
            == other.completed && self.created_at == other.created_at
    }
}

impl vstd::std_specs::cmp::PartialEqSpecImpl for Task {
    open spec fn obeys_eq_spec() -> bool {
        true
    }

    open spec fn eq_spec(&self, other: &Task) -> bool {
        self.id == other.id && self.description@ == other.description@ && self.completed
            == other.completed && self.created_at@ == other.created_at@
    }
}

impl Task {
    /// A pending task with the given id, description and creation time.
    pub fn new(id: usize, description: String, created_at: String) -> (task: Task)
        ensures
            task@ == (TaskView {
                id: id as nat,
                description: description@,
                completed: false,
                created_at: created_at@,
            }),
    {
        Task { id, description, completed: false, created_at }
    }
}

} // verus!
