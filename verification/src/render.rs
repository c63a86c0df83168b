//! The text that the user sees: numbers, task lines, listings and the
//! message for each outcome.

use crate::model::Outcome;
use crate::task::{Task, TaskView};
use crate::store::ref_views;
use vstd::prelude::*;

verus! {

/// The character for a decimal digit.
pub open spec fn digit(d: nat) -> char {
    if d == 0 {
        '0'
    } else if d == 1 {
        '1'
    } else if d == 2 {
        '2'
    } else if d == 3 {
        '3'
    } else if d == 4 {
        '4'
    } else if d == 5 {
        '5'
    } else if d == 6 {
        '6'
    } else if d == 7 {
        '7'
    } else if d == 8 {
        '8'
    } else {
        '9'
    }
}

/// A number in decimal, without sign and without leading zeros.
pub open spec fn decimal(n: nat) -> Seq<char>
    decreases n,
{
    if n < 10 {
        seq![digit(n)]
    } else {
        decimal(n / 10).push(digit(n % 10))
    }
}

/// The line that shows one task: its checkbox, its mark, its id and its
/// description.
pub open spec fn task_line(task: TaskView) -> Seq<char> {
    (if task.completed {
        "[x] ✓ "@
    } else {
        "[ ]   "@
    }) + decimal(task.id) + " - "@ + task.description
}

/// The lines of the tasks, each ended by a line feed.
pub open spec fn task_lines(tasks: Seq<TaskView>) -> Seq<char>
    decreases tasks.len(),
{
    if tasks.len() == 0 {
        Seq::empty()
    } else {
        task_lines(tasks.drop_last()) + task_line(tasks.last()) + "\n"@
    }
}

/// The whole text of a listing of `tasks`.
pub open spec fn listing(tasks: Seq<TaskView>) -> Seq<char> {
    if tasks.len() == 0 {
        "No tasks found.\n"@
    } else {
        "\n📋 Your To-Do List:\n\n"@ + task_lines(tasks) + "\n"@
    }
}

/// The message for an outcome, without a line feed.
pub open spec fn message(outcome: Outcome) -> Seq<char> {
    match outcome {
        Outcome::Added(_) => "✓ Task added successfully!"@,
        Outcome::Completed(id) => "✓ Task "@ + decimal(id as nat) + " marked as complete!"@,
        Outcome::AlreadyCompleted(id) => "Task "@ + decimal(id as nat) + " is already completed."@,
        Outcome::Deleted(id) => "✓ Task "@ + decimal(id as nat) + " deleted successfully!"@,
        Outcome::NotFound(id) => "Task with ID "@ + decimal(id as nat) + " not found."@,
        Outcome::ConfirmationNeeded => "⚠️  This will delete all tasks. Use --yes to confirm."@,
        Outcome::Cleared(count) => "✓ Cleared "@ + decimal(count as nat) + " task(s)."@,
    }
}

fn digit_text(d: usize) -> (text: &'static str)
    requires
        d < 10,
    ensures
        text@ == seq![digit(d as nat)],
{
    proof {
        reveal_strlit("0");
        reveal_strlit("1");
        reveal_strlit("2");
        reveal_strlit("3");
        reveal_strlit("4");
        reveal_strlit("5");
        reveal_strlit("6");
        reveal_strlit("7");
        reveal_strlit("8");
        reveal_strlit("9");
    }
    let text = if d == 0 {
        "0"
    } else if d == 1 {
        "1"
    } else if d == 2 {
        "2"
    } else if d == 3 {
        "3"
    } else if d == 4 {
        "4"
    } else if d == 5 {
        "5"
    } else if d == 6 {
        "6"
    } else if d == 7 {
        "7"
    } else if d == 8 {
        "8"
    } else {
        "9"
    };
    assert(text@ =~= seq![digit(d as nat)]);
    text
}

/// `n` in decimal.
pub fn decimal_string(n: usize) -> (text: String)
    ensures
        text@ == decimal(n as nat),
    decreases n,
{
    if n < 10 {
        String::from_str(digit_text(n))
    } else {
        let mut text = decimal_string(n / 10);
        text.append(digit_text(n % 10));
        text
    }
}

/// The line that shows `task`.
pub fn render_task(task: &Task) -> (line: String)
    ensures
        line@ == task_line(task@),
{
    let mut line = if task.completed {
        String::from_str("[x] ✓ ")
    } else {
        String::from_str("[ ]   ")
    };
    let id = decimal_string(task.id);
    line.append(id.as_str());
    line.append(" - ");
    line.append(task.description.as_str());
    line
}

/// The whole text of a listing of `tasks`: a notice where there is none,
/// else a heading, a line for each task in order, and an empty line.
pub fn render_listing(tasks: &Vec<&Task>) -> (text: String)
    ensures
        text@ == listing(ref_views(tasks@)),
{
    if tasks.len() == 0 {
        return String::from_str("No tasks found.\n");
    }
    let mut text = String::from_str("\n📋 Your To-Do List:\n\n");
    let ghost heading = text@;
    let mut i: usize = 0;
    while i < tasks.len()
        invariant
            i <= tasks.len(),
            text@ == heading + task_lines(ref_views(tasks@.take(i as int))),
        decreases tasks.len() - i,
    {
        let line = render_task(tasks[i]);
        proof {
            let after = ref_views(tasks@.take(i + 1));
            assert(after.drop_last() =~= ref_views(tasks@.take(i as int)));
            assert(after.last() == tasks@[i as int]@);
        }
        let ghost lines = task_lines(ref_views(tasks@.take(i as int)));
        text.append(line.as_str());
        text.append("\n");
        assert(text@ =~= heading + (lines + line@ + "\n"@));
        i += 1;
    }
    assert(tasks@.take(i as int) =~= tasks@);
    text.append("\n");
    text
}

/// The message for an outcome, without a line feed.
pub fn render_message(outcome: Outcome) -> (text: String)
    ensures
        text@ == message(outcome),
{
    match outcome {
        Outcome::Added(_) => String::from_str("✓ Task added successfully!"),
        Outcome::Completed(id) => framed("✓ Task ", id, " marked as complete!"),
        Outcome::AlreadyCompleted(id) => framed("Task ", id, " is already completed."),
        Outcome::Deleted(id) => framed("✓ Task ", id, " deleted successfully!"),
        Outcome::NotFound(id) => framed("Task with ID ", id, " not found."),
        Outcome::ConfirmationNeeded => String::from_str(
            "⚠️  This will delete all tasks. Use --yes to confirm.",
        ),
        Outcome::Cleared(count) => framed("✓ Cleared ", count, " task(s)."),
    }
}

fn framed(before: &str, n: usize, after: &str) -> (text: String)
    ensures
        text@ == before@ + decimal(n as nat) + after@,
{
    let mut text = String::from_str(before);
    let number = decimal_string(n);
    text.append(number.as_str());
    text.append(after);
    text
}

} // verus!
