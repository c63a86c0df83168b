use rust_todo::model::Outcome;
use rust_todo::store::{data_directory, data_file_name, Loaded, TodoList};
use rust_todo::task::Task;

fn empty_store() -> TodoList {
    TodoList::new(String::from("/tmp/tasks.json"), Loaded::Missing)
}

fn task(id: usize, description: &str, completed: bool) -> Task {
    Task {
        id,
        description: String::from(description),
        completed,
        created_at: String::from("2024-05-01T10:00:00+00:00"),
    }
}

fn store_of(tasks: Vec<Task>) -> TodoList {
    TodoList::new(String::from("/tmp/tasks.json"), Loaded::Tasks(tasks))
}

fn ids(list: &TodoList) -> Vec<usize> {
    let mut out: Vec<usize> = Vec::new();
    for t in list.tasks() {
        out.push(t.id);
    }
    out
}

#[test]
fn new_task_is_pending() {
    let t = Task::new(3, String::from("write"), String::from("now"));
    assert_eq!(t.id, 3);
    assert_eq!(t.description, "write");
    assert!(!t.completed);
    assert_eq!(t.created_at, "now");
}

#[test]
fn tasks_compare_by_their_fields() {
    assert_eq!(task(1, "a", false), task(1, "a", false));
    assert_ne!(task(1, "a", false), task(2, "a", false));
    assert_ne!(task(1, "a", false), task(1, "b", false));
    assert_ne!(task(1, "a", false), task(1, "a", true));
    let mut other = task(1, "a", false);
    other.created_at = String::from("later");
    assert_ne!(task(1, "a", false), other);
}

#[test]
fn missing_unreadable_and_corrupt_files_give_an_empty_store() {
    assert!(TodoList::load_tasks(Loaded::Missing).is_empty());
    assert!(TodoList::load_tasks(Loaded::Unreadable).is_empty());
    assert!(TodoList::load_tasks(Loaded::Corrupt).is_empty());
    assert!(TodoList::new(String::from("p"), Loaded::Corrupt).tasks().is_empty());
}

#[test]
fn loaded_tasks_keep_their_order_and_fields() {
    let given = vec![task(5, "five", true), task(2, "two", false)];
    let loaded = TodoList::load_tasks(Loaded::Tasks(given.clone()));
    assert_eq!(loaded, given);
    let list = store_of(given.clone());
    assert_eq!(list.tasks(), &given);
}

#[test]
fn store_keeps_its_path() {
    let list = TodoList::new(String::from("/home/u/.rust-todo.json"), Loaded::Missing);
    assert_eq!(list.file_path(), "/home/u/.rust-todo.json");
}

#[test]
fn data_directory_is_home_or_the_current_directory() {
    assert_eq!(data_directory(Some(String::from("/home/u"))), "/home/u");
    assert_eq!(data_directory(None), ".");
    assert_eq!(data_file_name(), ".rust-todo.json");
}

#[test]
fn adding_to_an_empty_store_counts_from_one() {
    let mut list = empty_store();
    let descriptions = ["", "buy milk", "buy milk", "日本語", "a \"quoted\" one", "x\ny"];
    let mut n: usize = 0;
    for d in descriptions {
        n += 1;
        let outcome = list.add_task_at(String::from(d), format!("t{}", n));
        assert_eq!(outcome, Outcome::Added(n));
    }
    assert_eq!(ids(&list), vec![1, 2, 3, 4, 5, 6]);
    let mut i: usize = 0;
    for t in list.tasks() {
        assert_eq!(t.description, descriptions[i]);
        assert_eq!(t.created_at, format!("t{}", i + 1));
        assert!(!t.completed);
        i += 1;
    }
}

#[test]
fn next_id_is_one_more_than_the_greatest() {
    assert_eq!(empty_store().next_id(), Some(1));
    assert_eq!(empty_store().max_id(), 0);
    let list = store_of(vec![task(4, "a", false), task(9, "b", false), task(2, "c", false)]);
    assert_eq!(list.max_id(), 9);
    assert_eq!(list.next_id(), Some(10));
    let mut list = list;
    assert_eq!(list.add_task_at(String::from("d"), String::from("t")), Outcome::Added(10));
    assert_eq!(ids(&list), vec![4, 9, 2, 10]);
}

#[test]
fn next_id_is_none_past_the_greatest_word() {
    let list = store_of(vec![task(usize::MAX, "last", false)]);
    assert_eq!(list.max_id(), usize::MAX);
    assert_eq!(list.next_id(), None);
}

#[test]
fn add_task_stamps_the_current_time() {
    let mut list = empty_store();
    let before = chrono::Local::now();
    assert_eq!(list.add_task(String::from("buy milk")), Outcome::Added(1));
    let after = chrono::Local::now();
    let t = &list.tasks()[0];
    assert_eq!(t.id, 1);
    assert_eq!(t.description, "buy milk");
    assert!(!t.completed);
    let stamp = chrono::DateTime::parse_from_rfc3339(&t.created_at).expect("an RFC 3339 time");
    assert!(before <= stamp && stamp <= after);
}

#[test]
fn deleted_id_is_not_reused_while_a_greater_one_is_left() {
    let mut list = empty_store();
    for d in ["a", "b", "c"] {
        list.add_task_at(String::from(d), String::from("t"));
    }
    assert_eq!(list.delete_task(2), Outcome::Deleted(2));
    assert_eq!(ids(&list), vec![1, 3]);
    assert_eq!(list.add_task_at(String::from("d"), String::from("t")), Outcome::Added(4));
    assert_eq!(ids(&list), vec![1, 3, 4]);
}

#[test]
fn deleting_the_greatest_id_frees_it() {
    let mut list = empty_store();
    for d in ["a", "b", "c"] {
        list.add_task_at(String::from(d), String::from("t"));
    }
    assert_eq!(list.delete_task(3), Outcome::Deleted(3));
    assert_eq!(list.add_task_at(String::from("d"), String::from("t")), Outcome::Added(3));
}

#[test]
fn deleting_the_only_task_resets_the_next_id_to_one() {
    let mut list = empty_store();
    assert_eq!(list.add_task_at(String::from("a"), String::from("t")), Outcome::Added(1));
    assert_eq!(list.delete_task(1), Outcome::Deleted(1));
    assert!(list.tasks().is_empty());
    assert_eq!(list.add_task_at(String::from("b"), String::from("t")), Outcome::Added(1));
}

#[test]
fn completing_twice_reports_already_completed() {
    let mut list = store_of(vec![task(1, "a", false), task(2, "b", false)]);
    assert_eq!(list.complete_task(2), Outcome::Completed(2));
    assert_eq!(list.tasks(), &vec![task(1, "a", false), task(2, "b", true)]);
    assert_eq!(list.complete_task(2), Outcome::AlreadyCompleted(2));
    assert_eq!(list.tasks(), &vec![task(1, "a", false), task(2, "b", true)]);
}

#[test]
fn completing_an_unknown_id_changes_nothing() {
    let given = vec![task(1, "a", false), task(2, "b", true)];
    let mut list = store_of(given.clone());
    assert_eq!(list.complete_task(3), Outcome::NotFound(3));
    assert_eq!(list.complete_task(0), Outcome::NotFound(0));
    assert_eq!(list.tasks(), &given);
    assert_eq!(empty_store().complete_task(1), Outcome::NotFound(1));
}

#[test]
fn completing_takes_the_first_task_with_the_id() {
    let mut list = store_of(vec![task(7, "a", true), task(7, "b", false)]);
    assert_eq!(list.complete_task(7), Outcome::AlreadyCompleted(7));
    assert_eq!(list.tasks(), &vec![task(7, "a", true), task(7, "b", false)]);
    let mut list = store_of(vec![task(3, "x", false), task(7, "a", false), task(7, "b", false)]);
    assert_eq!(list.complete_task(7), Outcome::Completed(7));
    assert_eq!(
        list.tasks(),
        &vec![task(3, "x", false), task(7, "a", true), task(7, "b", false)]
    );
}

#[test]
fn deleting_twice_reports_not_found() {
    let mut list = store_of(vec![task(1, "a", false), task(2, "b", true), task(3, "c", false)]);
    assert_eq!(list.delete_task(2), Outcome::Deleted(2));
    assert_eq!(list.tasks(), &vec![task(1, "a", false), task(3, "c", false)]);
    assert_eq!(list.delete_task(2), Outcome::NotFound(2));
    assert_eq!(list.tasks(), &vec![task(1, "a", false), task(3, "c", false)]);
}

#[test]
fn deleting_removes_every_task_with_the_id() {
    let mut list = store_of(vec![
        task(7, "a", false),
        task(1, "b", false),
        task(7, "c", true),
        task(2, "d", false),
        task(7, "e", false),
    ]);
    assert_eq!(list.delete_task(7), Outcome::Deleted(7));
    assert_eq!(list.tasks(), &vec![task(1, "b", false), task(2, "d", false)]);
    assert_eq!(empty_store().delete_task(1), Outcome::NotFound(1));
}

#[test]
fn select_filters_and_keeps_the_order() {
    let given = vec![
        task(1, "a", false),
        task(2, "b", true),
        task(3, "c", false),
        task(4, "d", true),
    ];
    let list = store_of(given.clone());
    let all: Vec<usize> = list.select(false, false).iter().map(|t| t.id).collect();
    assert_eq!(all, vec![1, 2, 3, 4]);
    let completed = list.select(true, false);
    assert_eq!(completed, vec![&given[1], &given[3]]);
    let pending = list.select(false, true);
    assert_eq!(pending, vec![&given[0], &given[2]]);
    let both = list.select(true, true);
    assert_eq!(both, vec![&given[1], &given[3]]);
    assert!(empty_store().select(false, false).is_empty());
    assert_eq!(list.tasks(), &given);
}

#[test]
fn unconfirmed_clear_changes_nothing() {
    let given = vec![task(1, "a", false), task(2, "b", true)];
    let mut list = store_of(given.clone());
    assert_eq!(list.clear_all(false), Outcome::ConfirmationNeeded);
    assert_eq!(list.tasks(), &given);
    assert_eq!(list.file_path(), "/tmp/tasks.json");
}

#[test]
fn confirmed_clear_empties_the_store_and_counts() {
    let mut list = store_of(vec![task(1, "a", false), task(2, "b", true), task(9, "c", true)]);
    assert_eq!(list.clear_all(true), Outcome::Cleared(3));
    assert!(list.tasks().is_empty());
    assert_eq!(list.clear_all(true), Outcome::Cleared(0));
    assert_eq!(list.next_id(), Some(1));
}
