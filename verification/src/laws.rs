//! What holds of the store whatever it contains, stated over the model.

use crate::model::{
    changes_store, cleared, completion_outcome, deletion_outcome, done, first_with_id, has_id,
    id_differs, lemma_first_with_id, lemma_max_id_bounds, max_id, next_id, with_added,
    with_completed, without_id, Outcome,
};
use crate::render::{decimal, message};
use crate::task::TaskView;
use vstd::prelude::*;

verus! {

/// `tasks` after adding one pending task for each entry, in order. An entry
/// is a description and a creation time.
pub open spec fn with_all_added(
    tasks: Seq<TaskView>,
    entries: Seq<(Seq<char>, Seq<char>)>,
) -> Seq<TaskView>
    decreases entries.len(),
{
    if entries.len() == 0 {
        tasks
    } else {
        with_added(
            with_all_added(tasks, entries.drop_last()),
            entries.last().0,
            entries.last().1,
        )
    }
}

/// The ids are at least 1 and no two tasks share one.
pub open spec fn well_numbered(tasks: Seq<TaskView>) -> bool {
    &&& forall|i: int| 0 <= i < tasks.len() ==> (#[trigger] tasks[i]).id >= 1
    &&& forall|i: int, j: int|
        0 <= i < j < tasks.len() ==> (#[trigger] tasks[i]).id != (#[trigger] tasks[j]).id
}

/// Tasks added one after another to an empty store get the ids 1, 2, 3 and
/// so on, in the order in which they were added, whatever they describe.
/// Each is pending and holds its own description and creation time.
pub proof fn law_ids_count_from_one(entries: Seq<(Seq<char>, Seq<char>)>)
    ensures
        with_all_added(Seq::empty(), entries).len() == entries.len(),
        max_id(with_all_added(Seq::empty(), entries)) == entries.len(),
        forall|i: int|
            0 <= i < entries.len() ==> (#[trigger] with_all_added(Seq::empty(), entries)[i])
                == (TaskView {
                id: (i + 1) as nat,
                description: entries[i].0,
                completed: false,
                created_at: entries[i].1,
            }),
    decreases entries.len(),
{
    if entries.len() > 0 {
        let front = entries.drop_last();
        law_ids_count_from_one(front);
        let before = with_all_added(Seq::empty(), front);
        let after = with_all_added(Seq::empty(), entries);
        assert(after.drop_last() =~= before);
        assert forall|i: int| 0 <= i < entries.len() implies (#[trigger] after[i]) == (TaskView {
            id: (i + 1) as nat,
            description: entries[i].0,
            completed: false,
            created_at: entries[i].1,
        }) by {
            if i < front.len() {
                assert(after[i] == before[i]);
                assert(front[i] == entries[i]);
            }
        }
    }
}

/// An added task gets an id that is greater than every id in the store, so
/// no task in the store has it.
pub proof fn law_added_id_is_new(
    tasks: Seq<TaskView>,
    description: Seq<char>,
    created_at: Seq<char>,
)
    ensures
        with_added(tasks, description, created_at).last().id == next_id(tasks),
        forall|i: int| 0 <= i < tasks.len() ==> (#[trigger] tasks[i]).id < next_id(tasks),
        !has_id(tasks, next_id(tasks)),
{
    lemma_max_id_bounds(tasks);
}

/// After the tasks with `id` were deleted, an added task does not get `id`
/// again, unless `id` is one more than the greatest id that is left (1 where
/// none is left). Where a task with a greater id is left, the new id is
/// greater than `id`; where none is left, the new id is 1.
pub proof fn law_deleted_id_not_reused(
    tasks: Seq<TaskView>,
    id: nat,
    description: Seq<char>,
    created_at: Seq<char>,
)
    requires
        id != max_id(without_id(tasks, id)) + 1,
    ensures
        with_added(without_id(tasks, id), description, created_at).last().id != id,
        !has_id(
            without_id(tasks, id),
            with_added(without_id(tasks, id), description, created_at).last().id,
        ),
        (exists|i: int| 0 <= i < tasks.len() && (#[trigger] tasks[i]).id > id) ==> with_added(
            without_id(tasks, id),
            description,
            created_at,
        ).last().id > id,
        without_id(tasks, id).len() == 0 ==> with_added(
            without_id(tasks, id),
            description,
            created_at,
        ).last().id == 1,
{
    let rest = without_id(tasks, id);
    law_added_id_is_new(rest, description, created_at);
    if exists|i: int| 0 <= i < tasks.len() && (#[trigger] tasks[i]).id > id {
        let i = choose|i: int| 0 <= i < tasks.len() && (#[trigger] tasks[i]).id > id;
        tasks.lemma_filter_contains(id_differs(id), i);
        let k = choose|k: int| 0 <= k < rest.len() && rest[k] == tasks[i];
        assert(rest[k].id < next_id(rest));
    }
}

/// Completing changes no id, so the first task with an id stays where it is.
proof fn lemma_completed_keeps_ids(tasks: Seq<TaskView>, id: nat, other: nat)
    ensures
        with_completed(tasks, id).len() == tasks.len(),
        forall|i: int|
            0 <= i < tasks.len() ==> (#[trigger] with_completed(tasks, id)[i]).id == tasks[i].id,
        first_with_id(with_completed(tasks, id), other) == first_with_id(tasks, other),
{
    let once = with_completed(tasks, id);
    lemma_first_with_id(tasks, id);
    lemma_first_with_id(tasks, other);
    lemma_first_with_id(once, other);
    assert forall|i: int| 0 <= i < tasks.len() implies (#[trigger] once[i]).id
        == tasks[i].id by {}
    let a = first_with_id(tasks, other);
    let b = first_with_id(once, other);
    if a < b {
        assert(once[a].id == tasks[a].id);
    }
    if b < a {
        assert(once[b].id == tasks[b].id);
    }
}

/// Completing a task twice is completing it once: where a task has the id,
/// it is completed after the first call, the second call changes nothing,
/// reports that the task was completed before, and asks for no write.
pub proof fn law_complete_twice(tasks: Seq<TaskView>, id: usize)
    requires
        has_id(tasks, id as nat),
    ensures
        with_completed(tasks, id as nat)[first_with_id(tasks, id as nat)] == done(
            tasks[first_with_id(tasks, id as nat)],
        ),
        with_completed(with_completed(tasks, id as nat), id as nat) == with_completed(
            tasks,
            id as nat,
        ),
        completion_outcome(with_completed(tasks, id as nat), id) == Outcome::AlreadyCompleted(id),
        message(completion_outcome(with_completed(tasks, id as nat), id)) == "Task "@ + decimal(
            id as nat,
        ) + " is already completed."@,
        !changes_store(completion_outcome(with_completed(tasks, id as nat), id)),
{
    let once = with_completed(tasks, id as nat);
    lemma_first_with_id(tasks, id as nat);
    lemma_completed_keeps_ids(tasks, id as nat, id as nat);
    assert(with_completed(once, id as nat) =~= once);
}

/// A filter keeps a sequence whose items all pass it.
proof fn lemma_filter_keeps_all(tasks: Seq<TaskView>, keep: spec_fn(TaskView) -> bool)
    requires
        forall|i: int| 0 <= i < tasks.len() ==> keep(#[trigger] tasks[i]),
    ensures
        tasks.filter(keep) == tasks,
    decreases tasks.len(),
{
    reveal(Seq::filter);
    if tasks.len() > 0 {
        let front = tasks.drop_last();
        assert forall|i: int| 0 <= i < front.len() implies keep(#[trigger] front[i]) by {
            assert(front[i] == tasks[i]);
        }
        lemma_filter_keeps_all(front, keep);
        assert(keep(tasks[tasks.len() - 1]));
        assert(front.push(tasks.last()) =~= tasks);
    }
}

/// What is left after a deletion: tasks of the store, none with the id, each
/// task with another id, and in the order that they had.
proof fn lemma_without_id(tasks: Seq<TaskView>, id: nat)
    ensures
        !has_id(without_id(tasks, id), id),
        has_id(tasks, id) <==> without_id(tasks, id).len() < tasks.len(),
        forall|k: int|
            0 <= k < without_id(tasks, id).len() ==> tasks.contains(
                #[trigger] without_id(tasks, id)[k],
            ),
        well_numbered(tasks) ==> well_numbered(without_id(tasks, id)),
    decreases tasks.len(),
{
    reveal(Seq::filter);
    let rest = without_id(tasks, id);
    if tasks.len() == 0 {
    } else {
        let front = tasks.drop_last();
        let last = tasks.last();
        let front_rest = without_id(front, id);
        lemma_without_id(front, id);
        assert forall|k: int| 0 <= k < front_rest.len() implies tasks.contains(
            #[trigger] front_rest[k],
        ) by {
            let j = choose|j: int| 0 <= j < front.len() && front[j] == front_rest[k];
            assert(tasks[j] == front_rest[k]);
        }
        assert forall|k: int| 0 <= k < rest.len() implies tasks.contains(#[trigger] rest[k]) by {
            if k < front_rest.len() {
                assert(rest[k] == front_rest[k]);
            } else {
                assert(rest[k] == tasks[tasks.len() - 1]);
            }
        }
        if has_id(rest, id) {
            let k = choose|k: int| 0 <= k < rest.len() && (#[trigger] rest[k]).id == id;
            if k < front_rest.len() {
                assert(front_rest[k].id == id);
            }
        }
        if has_id(front, id) {
            let j = choose|j: int| 0 <= j < front.len() && (#[trigger] front[j]).id == id;
            assert(tasks[j].id == id);
        }
        if last.id == id {
            assert(tasks[tasks.len() - 1].id == id);
        }
        if has_id(tasks, id) {
            let j = choose|j: int| 0 <= j < tasks.len() && (#[trigger] tasks[j]).id == id;
            if j < front.len() {
                assert(front[j].id == id);
            }
        }
        if well_numbered(tasks) {
            assert forall|i: int| 0 <= i < front.len() implies (#[trigger] front[i]).id >= 1 by {
                assert(front[i] == tasks[i]);
            }
            assert forall|i: int, j: int| 0 <= i < j < front.len() implies (#[trigger] front[i]).id
                != (#[trigger] front[j]).id by {
                assert(front[i] == tasks[i] && front[j] == tasks[j]);
            }
            assert forall|i: int| 0 <= i < rest.len() implies (#[trigger] rest[i]).id >= 1 by {
                let j = choose|j: int| 0 <= j < tasks.len() && tasks[j] == rest[i];
                assert(tasks[j].id >= 1);
            }
            assert forall|i: int, j: int| 0 <= i < j < rest.len() implies (#[trigger] rest[i]).id
                != (#[trigger] rest[j]).id by {
                if j < front_rest.len() {
                    assert(rest[i] == front_rest[i] && rest[j] == front_rest[j]);
                } else {
                    assert(rest[i] == front_rest[i]);
                    let a = choose|a: int| 0 <= a < front.len() && front[a] == front_rest[i];
                    assert(tasks[a] == rest[i]);
                    assert(tasks[tasks.len() - 1] == rest[j]);
                }
            }
        }
    }
}

/// A deletion removes the id for good: no task that is left has it, a
/// second deletion of the same id changes nothing, reports that no task has
/// the id, and asks for no write.
pub proof fn law_delete_twice(tasks: Seq<TaskView>, id: usize)
    ensures
        !has_id(without_id(tasks, id as nat), id as nat),
        without_id(without_id(tasks, id as nat), id as nat) == without_id(tasks, id as nat),
        deletion_outcome(without_id(tasks, id as nat), id) == Outcome::NotFound(id),
        !changes_store(deletion_outcome(without_id(tasks, id as nat), id)),
{
    let once = without_id(tasks, id as nat);
    lemma_without_id(tasks, id as nat);
    assert forall|i: int| 0 <= i < once.len() implies id_differs(id as nat)(
        #[trigger] once[i],
    ) by {
        if once[i].id == id {
            assert(has_id(once, id as nat));
        }
    }
    lemma_filter_keeps_all(once, id_differs(id as nat));
}

/// A deletion reports a task exactly when it made the store shorter, and
/// every task that is left was in the store.
pub proof fn law_delete_takes_only_the_id(tasks: Seq<TaskView>, id: usize)
    ensures
        deletion_outcome(tasks, id) == Outcome::Deleted(id) <==> without_id(tasks, id as nat).len()
            < tasks.len(),
        deletion_outcome(tasks, id) == Outcome::NotFound(id) ==> without_id(tasks, id as nat)
            == tasks,
        forall|k: int|
            0 <= k < without_id(tasks, id as nat).len() ==> tasks.contains(
                #[trigger] without_id(tasks, id as nat)[k],
            ),
        forall|i: int|
            0 <= i < tasks.len() && (#[trigger] tasks[i]).id != id ==> without_id(
                tasks,
                id as nat,
            ).contains(tasks[i]),
{
    lemma_without_id(tasks, id as nat);
    if !has_id(tasks, id as nat) {
        assert forall|i: int| 0 <= i < tasks.len() implies id_differs(id as nat)(
            #[trigger] tasks[i],
        ) by {}
        lemma_filter_keeps_all(tasks, id_differs(id as nat));
    }
    assert forall|i: int| 0 <= i < tasks.len() && (#[trigger] tasks[i]).id != id implies without_id(
        tasks,
        id as nat,
    ).contains(tasks[i]) by {
        tasks.lemma_filter_contains(id_differs(id as nat), i);
    }
}

/// A store whose ids are at least 1 and differ from each other stays so
/// under every operation, and the empty store is one.
pub proof fn law_ids_stay_distinct(
    tasks: Seq<TaskView>,
    id: nat,
    description: Seq<char>,
    created_at: Seq<char>,
    confirmed: bool,
)
    requires
        well_numbered(tasks),
    ensures
        well_numbered(Seq::empty()),
        well_numbered(with_added(tasks, description, created_at)),
        well_numbered(with_completed(tasks, id)),
        well_numbered(without_id(tasks, id)),
        well_numbered(cleared(tasks, confirmed)),
{
    lemma_max_id_bounds(tasks);
    lemma_completed_keeps_ids(tasks, id, id);
    lemma_without_id(tasks, id);
    let once = with_completed(tasks, id);
    assert forall|i: int, j: int| 0 <= i < j < once.len() implies (#[trigger] once[i]).id != (
    #[trigger] once[j]).id by {
        assert(once[i].id == tasks[i].id && once[j].id == tasks[j].id);
    }
    assert forall|i: int| 0 <= i < once.len() implies (#[trigger] once[i]).id >= 1 by {
        assert(once[i].id == tasks[i].id);
    }
}

} // verus!
