//! The store as a mathematical value: a sequence of task values, and what
//! each operation makes of it.

use crate::task::{Task, TaskView};
use vstd::prelude::*;

verus! {

/// What an operation on the store found and did.
#[derive(Debug, Clone, Copy, PartialEq, Eq, Structural)]
pub enum Outcome {
    /// A task was appended under this id.
    Added(usize),
    /// The task with this id was pending and is now completed.
    Completed(usize),
    /// The task with this id was completed before.
    AlreadyCompleted(usize),
    /// Every task with this id was removed.
    Deleted(usize),
    /// No task has this id.
    NotFound(usize),
    /// Clearing was asked for without confirmation.
    ConfirmationNeeded,
    /// The store was emptied of this many tasks.
    Cleared(usize),
}

/// The values of a sequence of tasks, in the same order.
pub open spec fn views(tasks: Seq<Task>) -> Seq<TaskView> {
    tasks.map_values(|t: Task| t@)
}

/// The greatest id in `tasks`, 0 where there is none.
pub open spec fn max_id(tasks: Seq<TaskView>) -> nat
    decreases tasks.len(),
{
    if tasks.len() == 0 {
        0
    } else {
        let rest = max_id(tasks.drop_last());
        if tasks.last().id > rest {
            tasks.last().id
        } else {
            rest
        }
    }
}

/// The id that the next added task gets.
pub open spec fn next_id(tasks: Seq<TaskView>) -> nat {
    max_id(tasks) + 1
}

/// `tasks` after adding a pending task.
pub open spec fn with_added(
    tasks: Seq<TaskView>,
    description: Seq<char>,
    created_at: Seq<char>,
) -> Seq<TaskView> {
    tasks.push(
        TaskView { id: next_id(tasks), description, completed: false, created_at },
    )
}

/// Whether some task in `tasks` has this id.
pub open spec fn has_id(tasks: Seq<TaskView>, id: nat) -> bool {
    exists|i: int| 0 <= i < tasks.len() && (#[trigger] tasks[i]).id == id
}

/// The position of the first task with this id, `tasks.len()` where there is
/// none.
pub open spec fn first_with_id(tasks: Seq<TaskView>, id: nat) -> int
    decreases tasks.len(),
{
    if tasks.len() == 0 {
        0
    } else if tasks.first().id == id {
        0
    } else {
        1 + first_with_id(tasks.drop_first(), id)
    }
}

/// `task`, completed.
pub open spec fn done(task: TaskView) -> TaskView {
    TaskView { completed: true, ..task }
}

/// `tasks` after completing the first task with this id.
pub open spec fn with_completed(tasks: Seq<TaskView>, id: nat) -> Seq<TaskView> {
    let i = first_with_id(tasks, id);
    if i < tasks.len() {
        tasks.update(i, done(tasks[i]))
    } else {
        tasks
    }
}

/// What completing the task with this id reports.
pub open spec fn completion_outcome(tasks: Seq<TaskView>, id: usize) -> Outcome {
    let i = first_with_id(tasks, id as nat);
    if i >= tasks.len() {
        Outcome::NotFound(id)
    } else if tasks[i].completed {
        Outcome::AlreadyCompleted(id)
    } else {
        Outcome::Completed(id)
    }
}

/// The test that keeps every task but those with this id.
pub open spec fn id_differs(id: nat) -> spec_fn(TaskView) -> bool {
    |t: TaskView| t.id != id
}

/// `tasks` without the tasks that have this id, the others in their order.
pub open spec fn without_id(tasks: Seq<TaskView>, id: nat) -> Seq<TaskView> {
    tasks.filter(id_differs(id))
}

/// What deleting the task with this id reports.
pub open spec fn deletion_outcome(tasks: Seq<TaskView>, id: usize) -> Outcome {
    if has_id(tasks, id as nat) {
        Outcome::Deleted(id)
    } else {
        Outcome::NotFound(id)
    }
}

/// The test that keeps the tasks whose completion flag is `completed`.
pub open spec fn completion_is(completed: bool) -> spec_fn(TaskView) -> bool {
    |t: TaskView| t.completed == completed
}

/// The tasks that a listing shows: the completed ones where `show_completed`
/// is set, else the pending ones where `show_pending` is set, else all; in
/// each case in their order in `tasks`.
pub open spec fn selected(
    tasks: Seq<TaskView>,
    show_completed: bool,
    show_pending: bool,
) -> Seq<TaskView> {
    if show_completed {
        tasks.filter(completion_is(true))
    } else if show_pending {
        tasks.filter(completion_is(false))
    } else {
        tasks
    }
}

/// `tasks` after clearing.
pub open spec fn cleared(tasks: Seq<TaskView>, confirmed: bool) -> Seq<TaskView> {
    if confirmed {
        Seq::empty()
    } else {
        tasks
    }
}

/// What clearing reports.
pub open spec fn clearing_outcome(tasks: Seq<TaskView>, confirmed: bool) -> Outcome {
    if confirmed {
        Outcome::Cleared(tasks.len() as usize)
    } else {
        Outcome::ConfirmationNeeded
    }
}

/// Whether the store must be written out after this outcome.
pub open spec fn changes_store(outcome: Outcome) -> bool {
    match outcome {
        Outcome::Added(_) | Outcome::Completed(_) | Outcome::Deleted(_) | Outcome::Cleared(_) => true,
        Outcome::AlreadyCompleted(_) | Outcome::NotFound(_) | Outcome::ConfirmationNeeded => false,
    }
}

/// Every id in `tasks` is at most `max_id(tasks)`.
pub proof fn lemma_max_id_bounds(tasks: Seq<TaskView>)
    ensures
        forall|i: int| 0 <= i < tasks.len() ==> (#[trigger] tasks[i]).id <= max_id(tasks),
        tasks.len() > 0 ==> has_id(tasks, max_id(tasks)),
    decreases tasks.len(),
{
    if tasks.len() > 0 {
        let front = tasks.drop_last();
        lemma_max_id_bounds(front);
        assert forall|i: int| 0 <= i < tasks.len() implies (#[trigger] tasks[i]).id <= max_id(
            tasks,
        ) by {
            if i < front.len() {
                assert(front[i] == tasks[i]);
            }
        }
        if tasks.last().id > max_id(front) || front.len() == 0 {
            assert(tasks[tasks.len() - 1].id == max_id(tasks));
        } else {
            let j = choose|j: int| 0 <= j < front.len() && (#[trigger] front[j]).id == max_id(front);
            assert(tasks[j].id == max_id(tasks));
        }
    }
}

/// `first_with_id` is the least position that holds the id.
pub proof fn lemma_first_with_id(tasks: Seq<TaskView>, id: nat)
    ensures
        0 <= first_with_id(tasks, id) <= tasks.len(),
        forall|j: int| 0 <= j < first_with_id(tasks, id) ==> (#[trigger] tasks[j]).id != id,
        first_with_id(tasks, id) < tasks.len() ==> tasks[first_with_id(tasks, id)].id == id,
        first_with_id(tasks, id) < tasks.len() <==> has_id(tasks, id),
    decreases tasks.len(),
{
    if tasks.len() > 0 && tasks.first().id != id {
        let rest = tasks.drop_first();
        lemma_first_with_id(rest, id);
        let k = first_with_id(rest, id);
        assert forall|j: int| 0 <= j < 1 + k implies (#[trigger] tasks[j]).id != id by {
            if j > 0 {
                assert(rest[j - 1] == tasks[j]);
            }
        }
        if k < rest.len() {
            assert(rest[k] == tasks[k + 1]);
            assert(tasks[k + 1].id == id);
        } else if has_id(tasks, id) {
            let i = choose|i: int| 0 <= i < tasks.len() && (#[trigger] tasks[i]).id == id;
            assert(rest[i - 1] == tasks[i]);
        }
    } else if tasks.len() > 0 {
        assert(tasks[0].id == id);
    }
}

} // verus!
