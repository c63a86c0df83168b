use rust_todo::command::{conclude, reply_for, Command, Reply};
use rust_todo::model::Outcome;
use rust_todo::store::{Loaded, TodoList};
use rust_todo::task::Task;

fn fresh() -> TodoList {
    TodoList::new(String::from("/tmp/tasks.json"), Loaded::Missing)
}

fn record(id: usize, description: &str, completed: bool) -> Task {
    Task {
        id,
        description: String::from(description),
        completed,
        created_at: String::from("2024-05-01T10:00:00+00:00"),
    }
}

#[test]
fn reply_asks_for_a_write_only_after_a_change() {
    assert!(reply_for(Outcome::Added(1)).save);
    assert!(reply_for(Outcome::Completed(1)).save);
    assert!(reply_for(Outcome::Deleted(1)).save);
    assert!(reply_for(Outcome::Cleared(0)).save);
    assert!(!reply_for(Outcome::AlreadyCompleted(1)).save);
    assert!(!reply_for(Outcome::NotFound(1)).save);
    assert!(!reply_for(Outcome::ConfirmationNeeded).save);
    assert_eq!(reply_for(Outcome::NotFound(8)).text, "Task with ID 8 not found.\n");
}

#[test]
fn run_add_appends_and_asks_for_a_write() {
    let mut list = fresh();
    let reply = list.run(Command::Add { description: String::from("buy milk") });
    assert!(reply.save);
    assert_eq!(reply.text, "✓ Task added successfully!\n");
    assert_eq!(list.tasks().len(), 1);
    assert_eq!(list.tasks()[0].id, 1);
    assert_eq!(list.tasks()[0].description, "buy milk");
    assert!(!list.tasks()[0].completed);
    assert!(chrono::DateTime::parse_from_rfc3339(&list.tasks()[0].created_at).is_ok());
}

#[test]
fn run_list_never_asks_for_a_write() {
    let given = vec![record(1, "a", false), record(2, "b", true)];
    let mut list = TodoList::new(String::from("p"), Loaded::Tasks(given.clone()));
    let reply = list.run(Command::List { completed: false, pending: false });
    assert!(!reply.save);
    assert_eq!(reply.text, "\n📋 Your To-Do List:\n\n[ ]   1 - a\n[x] ✓ 2 - b\n\n");
    let reply = list.run(Command::List { completed: true, pending: true });
    assert!(!reply.save);
    assert_eq!(reply.text, "\n📋 Your To-Do List:\n\n[x] ✓ 2 - b\n\n");
    assert_eq!(list.tasks(), &given);
}

#[test]
fn run_complete_reports_each_case() {
    let mut list = TodoList::new(String::from("p"), Loaded::Tasks(vec![record(1, "a", false)]));
    let reply = list.run(Command::Complete { id: 1 });
    assert!(reply.save);
    assert_eq!(reply.text, "✓ Task 1 marked as complete!\n");
    assert!(list.tasks()[0].completed);
    let reply = list.run(Command::Complete { id: 1 });
    assert!(!reply.save);
    assert_eq!(reply.text, "Task 1 is already completed.\n");
    assert!(list.tasks()[0].completed);
    let reply = list.run(Command::Complete { id: 2 });
    assert!(!reply.save);
    assert_eq!(reply.text, "Task with ID 2 not found.\n");
}

#[test]
fn run_delete_twice_writes_once() {
    let mut list = TodoList::new(
        String::from("p"),
        Loaded::Tasks(vec![record(1, "a", false), record(2, "b", false)]),
    );
    let reply = list.run(Command::Delete { id: 1 });
    assert!(reply.save);
    assert_eq!(reply.text, "✓ Task 1 deleted successfully!\n");
    assert_eq!(list.tasks(), &vec![record(2, "b", false)]);
    let reply = list.run(Command::Delete { id: 1 });
    assert!(!reply.save);
    assert_eq!(reply.text, "Task with ID 1 not found.\n");
    assert_eq!(list.tasks(), &vec![record(2, "b", false)]);
}

#[test]
fn run_clear_needs_confirmation() {
    let given = vec![record(1, "a", false), record(2, "b", true)];
    let mut list = TodoList::new(String::from("p"), Loaded::Tasks(given.clone()));
    let reply = list.run(Command::Clear { yes: false });
    assert!(!reply.save);
    assert_eq!(reply.text, "⚠\u{fe0f}  This will delete all tasks. Use --yes to confirm.\n");
    assert_eq!(list.tasks(), &given);
    let reply = list.run(Command::Clear { yes: true });
    assert!(reply.save);
    assert_eq!(reply.text, "✓ Cleared 2 task(s).\n");
    assert!(list.tasks().is_empty());
}

#[test]
fn a_run_that_wrote_or_had_nothing_to_write_ends_with_zero() {
    let report = conclude(Reply { save: true, text: String::from("done\n") }, None);
    assert_eq!(report.stdout, "done\n");
    assert_eq!(report.stderr, "");
    assert_eq!(report.exit_code, 0);
    let report = conclude(Reply { save: false, text: String::from("Task with ID 3 not found.\n") }, None);
    assert_eq!(report.stdout, "Task with ID 3 not found.\n");
    assert_eq!(report.exit_code, 0);
}

#[test]
fn a_failed_write_ends_with_one_and_the_error() {
    let report = conclude(
        Reply { save: true, text: String::from("✓ Task added successfully!\n") },
        Some(String::from("Permission denied (os error 13)")),
    );
    assert_eq!(report.stdout, "");
    assert_eq!(report.stderr, "Error: Permission denied (os error 13)\n");
    assert_eq!(report.exit_code, 1);
}

#[test]
fn end_to_end_add_complete_list_delete() {
    let mut list = fresh();
    assert!(list.run(Command::Add { description: String::from("buy milk") }).save);
    assert!(list.run(Command::Add { description: String::from("walk dog") }).save);
    let reply = list.run(Command::Complete { id: 1 });
    assert!(reply.save);
    assert_eq!(reply.text, "✓ Task 1 marked as complete!\n");
    let pending = list.select(false, true);
    assert_eq!(pending.len(), 1);
    assert_eq!(pending[0].id, 2);
    assert_eq!(pending[0].description, "walk dog");
    let reply = list.run(Command::List { completed: false, pending: true });
    assert!(!reply.save);
    assert_eq!(reply.text, "\n📋 Your To-Do List:\n\n[ ]   2 - walk dog\n\n");
    let reply = list.run(Command::Delete { id: 2 });
    assert!(reply.save);
    assert_eq!(reply.text, "✓ Task 2 deleted successfully!\n");
    assert!(list.select(false, true).is_empty());
    let reply = list.run(Command::List { completed: false, pending: true });
    assert!(!reply.save);
    assert_eq!(reply.text, "No tasks found.\n");
    let reply = list.run(Command::List { completed: false, pending: false });
    assert_eq!(reply.text, "\n📋 Your To-Do List:\n\n[x] ✓ 1 - buy milk\n\n");
}
