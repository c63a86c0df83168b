//! The task store: an ordered list of tasks and the operations on it.

use crate::clock::local_timestamp;
use crate::model::{
    changes_store, cleared, clearing_outcome, completion_is, completion_outcome,
    deletion_outcome, first_with_id, has_id, id_differs, lemma_first_with_id, max_id, next_id,
    selected, views, with_added, with_completed, without_id, Outcome,
};
use crate::render::{listing, render_listing};
use crate::task::{Task, TaskView};
use vstd::prelude::*;

verus! {

/// The tasks of one user, in the order in which they were added, and the path
/// of the file that holds them between runs.
pub struct TodoList {
    tasks: Vec<Task>,
    file_path: String,
}

impl View for TodoList {
    type V = Seq<TaskView>;

    closed spec fn view(&self) -> Seq<TaskView> {
        views(self.tasks@)
    }
}

/// What was found where the tasks are kept between runs.
#[derive(Debug)]
pub enum Loaded {
    /// There is no file.
    Missing,
    /// There is a file, and it could not be read.
    Unreadable,
    /// The file was read, and its text is no list of tasks.
    Corrupt,
    /// The file holds these tasks, in this order.
    Tasks(Vec<Task>),
}

/// The tasks that a store starts with: those of the file where it holds a
/// list of tasks, none in every other case.
pub open spec fn loaded_tasks(loaded: Loaded) -> Seq<TaskView> {
    match loaded {
        Loaded::Tasks(tasks) => views(tasks@),
        _ => Seq::empty(),
    }
}

/// The directory of the file of tasks: the user's home directory where it
/// is known, else the current directory.
pub open spec fn data_directory_of(home: Option<String>) -> Seq<char> {
    match home {
        Some(directory) => directory@,
        None => "."@,
    }
}

/// The directory of the file of tasks, given the user's home directory
/// where it is known.
pub fn data_directory(home: Option<String>) -> (directory: String)
    ensures
        directory@ == data_directory_of(home),
{
    match home {
        Some(directory) => directory,
        None => String::from_str("."),
    }
}

/// The name of the file of tasks in its directory.
pub fn data_file_name() -> (name: String)
    ensures
        name@ == ".rust-todo.json"@,
{
    String::from_str(".rust-todo.json")
}

/// The values of a sequence of borrowed tasks, in the same order.
pub open spec fn ref_views(tasks: Seq<&Task>) -> Seq<TaskView> {
    tasks.map_values(|t: &Task| t@)
}

impl TodoList {
    /// The path of the file that holds the tasks between runs.
    pub closed spec fn path(&self) -> Seq<char> {
        self.file_path@
    }

    /// The tasks that a store starts with. A file that is missing, unreadable
    /// or corrupt counts as an empty list, and nothing is reported: a file
    /// that was damaged loses its tasks without a word.
    pub fn load_tasks(loaded: Loaded) -> (tasks: Vec<Task>)
        ensures
            views(tasks@) == loaded_tasks(loaded),
    {
        match loaded {
            Loaded::Tasks(tasks) => tasks,
            _ => {
                let tasks: Vec<Task> = Vec::new();
                assert(views(tasks@) =~= Seq::<TaskView>::empty());
                tasks
            },
        }
    }

    /// The store that is kept at `file_path`, with the tasks that were found
    /// there.
    pub fn new(file_path: String, loaded: Loaded) -> (list: TodoList)
        ensures
            list@ == loaded_tasks(loaded),
            list.path() == file_path@,
    {
        let tasks = Self::load_tasks(loaded);
        TodoList { tasks, file_path }
    }

    /// The path of the file that holds the tasks between runs.
    pub fn file_path(&self) -> (file_path: &String)
        ensures
            file_path@ == self.path(),
    {
        &self.file_path
    }

    /// The tasks, in their order.
    pub fn tasks(&self) -> (tasks: &Vec<Task>)
        ensures
            views(tasks@) == self@,
    {
        &self.tasks
    }

    /// The greatest id in the store, 0 where it is empty.
    pub fn max_id(&self) -> (m: usize)
        ensures
            m == max_id(self@),
    {
        let mut m: usize = 0;
        let mut i: usize = 0;
        while i < self.tasks.len()
            invariant
                i <= self.tasks.len(),
                m == max_id(views(self.tasks@.take(i as int))),
            decreases self.tasks.len() - i,
        {
            proof {
                let before = self.tasks@.take(i as int);
                let after = self.tasks@.take(i + 1);
                assert(views(after).drop_last() =~= views(before));
                assert(views(after).last() == self.tasks@[i as int]@);
            }
            if self.tasks[i].id > m {
                m = self.tasks[i].id;
            }
            i += 1;
        }
        assert(self.tasks@.take(i as int) =~= self.tasks@);
        m
    }

    /// The id that the next added task gets, `None` where it does not fit the
    /// machine's word.
    pub fn next_id(&self) -> (id: Option<usize>)
        ensures
            match id {
                Some(n) => n == next_id(self@),
                None => next_id(self@) > usize::MAX,
            },
    {
        self.max_id().checked_add(1)
    }

    /// Appends a pending task with the next id, the given description and the
    /// given creation time.
    pub fn add_task_at(&mut self, description: String, created_at: String) -> (outcome: Outcome)
        requires
            next_id(old(self)@) <= usize::MAX,
        ensures
            final(self)@ == with_added(old(self)@, description@, created_at@),
            outcome == Outcome::Added(next_id(old(self)@) as usize),
            final(self).path() == old(self).path(),
    {
        let id: usize = self.max_id() + 1;
        let task = Task::new(id, description, created_at);
        self.tasks.push(task);
        assert(views(self.tasks@) =~= views(old(self).tasks@).push(task@));
        Outcome::Added(id)
    }

    /// Appends a pending task with the next id and the given description,
    /// created at the current local time.
    pub fn add_task(&mut self, description: String) -> (outcome: Outcome)
        requires
            next_id(old(self)@) <= usize::MAX,
        ensures
            final(self)@ == with_added(
                old(self)@,
                description@,
                final(self)@.last().created_at,
            ),
            outcome == Outcome::Added(next_id(old(self)@) as usize),
            final(self).path() == old(self).path(),
    {
        let created_at = local_timestamp();
        self.add_task_at(description, created_at)
    }

    /// The tasks that a listing shows, in their order in the store: the
    /// completed ones where `show_completed` is set, else the pending ones
    /// where `show_pending` is set, else all.
    pub fn select(&self, show_completed: bool, show_pending: bool) -> (shown: Vec<&Task>)
        ensures
            ref_views(shown@) == selected(self@, show_completed, show_pending),
            !show_completed && !show_pending ==> ref_views(shown@) == self@,
    {
        let all = !show_completed && !show_pending;
        let mut shown: Vec<&Task> = Vec::new();
        let mut i: usize = 0;
        while i < self.tasks.len()
            invariant
                i <= self.tasks.len(),
                all == (!show_completed && !show_pending),
                all ==> ref_views(shown@) == views(self.tasks@.take(i as int)),
                !all ==> ref_views(shown@) == views(self.tasks@.take(i as int)).filter(
                    completion_is(show_completed),
                ),
            decreases self.tasks.len() - i,
        {
            let task = &self.tasks[i];
            proof {
                let before = views(self.tasks@.take(i as int));
                assert(views(self.tasks@.take(i + 1)) =~= before.push(task@));
                before.lemma_filter_push(task@, completion_is(show_completed));
                assert(ref_views(shown@.push(task)) =~= ref_views(shown@).push(task@));
            }
            if all || task.completed == show_completed {
                shown.push(task);
            }
            i += 1;
        }
        assert(self.tasks@.take(i as int) =~= self.tasks@);
        shown
    }

    /// The text of a listing of the tasks that `select` gives.
    pub fn list_tasks(&self, show_completed: bool, show_pending: bool) -> (text: String)
        ensures
            text@ == listing(selected(self@, show_completed, show_pending)),
    {
        let shown = self.select(show_completed, show_pending);
        render_listing(&shown)
    }

    /// Marks the first task with this id as completed, where there is one and
    /// it is pending, and says which of the three cases held.
    pub fn complete_task(&mut self, id: usize) -> (outcome: Outcome)
        ensures
            final(self)@ == with_completed(old(self)@, id as nat),
            outcome == completion_outcome(old(self)@, id),
            final(self).path() == old(self).path(),
    {
        let mut i: usize = 0;
        while i < self.tasks.len() && self.tasks[i].id != id
            invariant
                i <= self.tasks.len(),
                forall|j: int| 0 <= j < i ==> (#[trigger] self.tasks@[j]).id != id,
            decreases self.tasks.len() - i,
        {
            i += 1;
        }
        proof {
            let model = views(self.tasks@);
            lemma_first_with_id(model, id as nat);
            let first = first_with_id(model, id as nat);
            if first < i {
                assert(model[first] == self.tasks@[first]@);
            }
            if i < self.tasks.len() {
                assert(model[i as int] == self.tasks@[i as int]@);
            }
            assert(first == i);
        }
        if i == self.tasks.len() {
            Outcome::NotFound(id)
        } else if self.tasks[i].completed {
            assert(views(self.tasks@) =~= with_completed(views(self.tasks@), id as nat));
            Outcome::AlreadyCompleted(id)
        } else {
            let mut task = self.tasks.remove(i);
            task.completed = true;
            self.tasks.insert(i, task);
            assert(views(self.tasks@) =~= with_completed(views(old(self).tasks@), id as nat));
            Outcome::Completed(id)
        }
    }

    /// Removes every task with this id, keeps the others in their order, and
    /// says whether there was one.
    pub fn delete_task(&mut self, id: usize) -> (outcome: Outcome)
        ensures
            final(self)@ == without_id(old(self)@, id as nat),
            outcome == deletion_outcome(old(self)@, id),
            final(self).path() == old(self).path(),
    {
        let ghost before = self.tasks@;
        let mut found = false;
        let mut i: usize = 0;
        let ghost mut seen: int = 0;
        while i < self.tasks.len()
            invariant
                i <= self.tasks.len(),
                0 <= seen <= before.len(),
                self.tasks.len() - i == before.len() - seen,
                views(self.tasks@.take(i as int)) == without_id(views(before.take(seen)), id as nat),
                self.tasks@.skip(i as int) == before.skip(seen),
                found == has_id(views(before.take(seen)), id as nat),
                self.file_path == old(self).file_path,
            decreases self.tasks.len() - i,
        {
            let ghost current = self.tasks@;
            proof {
                let head = views(before.take(seen));
                assert(current[i as int] == current.skip(i as int)[0]);
                assert(before[seen] == before.skip(seen)[0]);
                assert(views(before.take(seen + 1)) =~= head.push(before[seen]@));
                head.lemma_filter_push(before[seen]@, id_differs(id as nat));
                lemma_has_id_push(head, before[seen]@, id as nat);
                assert(before.skip(seen + 1) =~= before.skip(seen).skip(1));
            }
            if self.tasks[i].id == id {
                self.tasks.remove(i);
                found = true;
                proof {
                    assert(self.tasks@.take(i as int) =~= current.take(i as int));
                    assert(self.tasks@.skip(i as int) =~= current.skip(i as int).skip(1));
                }
            } else {
                proof {
                    assert(views(current.take(i + 1)) =~= views(current.take(i as int)).push(
                        current[i as int]@,
                    ));
                    assert(current.skip(i + 1) =~= current.skip(i as int).skip(1));
                }
                i += 1;
            }
            proof {
                seen = seen + 1;
            }
        }
        proof {
            assert(self.tasks@.take(i as int) =~= self.tasks@);
            assert(before.take(seen) =~= before);
        }
        if found {
            Outcome::Deleted(id)
        } else {
            Outcome::NotFound(id)
        }
    }

    /// Empties the store where `confirmed` is set, and leaves it as it is
    /// where it is not.
    pub fn clear_all(&mut self, confirmed: bool) -> (outcome: Outcome)
        ensures
            final(self)@ == cleared(old(self)@, confirmed),
            outcome == clearing_outcome(old(self)@, confirmed),
            !confirmed ==> final(self)@ == old(self)@ && !changes_store(outcome),
            final(self).path() == old(self).path(),
    {
        if !confirmed {
            return Outcome::ConfirmationNeeded;
        }
        let count = self.tasks.len();
        self.tasks.clear();
        assert(views(self.tasks@) =~= Seq::<TaskView>::empty());
        Outcome::Cleared(count)
    }
}

/// A pushed task has the id, or the tasks before it have it.
proof fn lemma_has_id_push(tasks: Seq<TaskView>, task: TaskView, id: nat)
    ensures
        has_id(tasks.push(task), id) == (has_id(tasks, id) || task.id == id),
{
    let pushed = tasks.push(task);
    if has_id(tasks, id) {
        let i = choose|i: int| 0 <= i < tasks.len() && (#[trigger] tasks[i]).id == id;
        assert(pushed[i].id == id);
    }
    if task.id == id {
        assert(pushed[tasks.len() as int].id == id);
    }
    if has_id(pushed, id) {
        let i = choose|i: int| 0 <= i < pushed.len() && (#[trigger] pushed[i]).id == id;
        if i < tasks.len() {
            assert(tasks[i].id == id);
        }
    }
}

} // verus!
