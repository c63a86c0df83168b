//! One run of the program: a command, what the store makes of it, and what
//! the user is told once the store has been written out.

use crate::model::{
    changes_store, cleared, clearing_outcome, completion_outcome, deletion_outcome, next_id,
    selected, with_added, with_completed, without_id, Outcome,
};
use crate::render::{listing, message, render_message};
use crate::store::TodoList;
use vstd::prelude::*;

verus! {

/// What the user asks for.
#[derive(Debug)]
pub enum Command {
    /// Add a task with this description.
    Add { description: String },
    /// Show the tasks: the completed ones, the pending ones, or all.
    List { completed: bool, pending: bool },
    /// Mark the task with this id as completed.
    Complete { id: usize },
    /// Delete the task with this id.
    Delete { id: usize },
    /// Delete all tasks, where `yes` confirms it.
    Clear { yes: bool },
}

/// What a command leaves to do: write the store out where `save` is set,
/// and, where that went well, print `text`.
#[derive(Debug)]
pub struct Reply {
    pub save: bool,
    pub text: String,
}

/// How a run ends: what goes to standard output and to standard error, and
/// the exit code.
#[derive(Debug)]
pub struct Report {
    pub stdout: String,
    pub stderr: String,
    pub exit_code: i32,
}

/// The reply to a command that changed the store, or tried to.
pub open spec fn replies(reply: Reply, outcome: Outcome) -> bool {
    &&& reply.save == changes_store(outcome)
    &&& reply.text@ == message(outcome) + "\n"@
}

/// The reply for an outcome.
pub fn reply_for(outcome: Outcome) -> (reply: Reply)
    ensures
        replies(reply, outcome),
{
    let save = match outcome {
        Outcome::Added(_) | Outcome::Completed(_) | Outcome::Deleted(_) | Outcome::Cleared(_) => true,
        Outcome::AlreadyCompleted(_) | Outcome::NotFound(_) | Outcome::ConfirmationNeeded => false,
    };
    let mut text = render_message(outcome);
    text.append("\n");
    Reply { save, text }
}

impl TodoList {
    /// Carries out `command` on the store and says what is left to do.
    pub fn run(&mut self, command: Command) -> (reply: Reply)
        requires
            command is Add ==> next_id(old(self)@) <= usize::MAX,
        ensures
            final(self).path() == old(self).path(),
            match command {
                Command::Add { description } => {
                    &&& final(self)@ == with_added(
                        old(self)@,
                        description@,
                        final(self)@.last().created_at,
                    )
                    &&& replies(reply, Outcome::Added(next_id(old(self)@) as usize))
                },
                Command::List { completed, pending } => {
                    &&& final(self)@ == old(self)@
                    &&& !reply.save
                    &&& reply.text@ == listing(selected(old(self)@, completed, pending))
                },
                Command::Complete { id } => {
                    &&& final(self)@ == with_completed(old(self)@, id as nat)
                    &&& replies(reply, completion_outcome(old(self)@, id))
                },
                Command::Delete { id } => {
                    &&& final(self)@ == without_id(old(self)@, id as nat)
                    &&& replies(reply, deletion_outcome(old(self)@, id))
                },
                Command::Clear { yes } => {
                    &&& final(self)@ == cleared(old(self)@, yes)
                    &&& replies(reply, clearing_outcome(old(self)@, yes))
                },
            },
    {
        match command {
            Command::Add { description } => reply_for(self.add_task(description)),
            Command::List { completed, pending } => {
                let text = self.list_tasks(completed, pending);
                Reply { save: false, text }
            },
            Command::Complete { id } => reply_for(self.complete_task(id)),
            Command::Delete { id } => reply_for(self.delete_task(id)),
            Command::Clear { yes } => reply_for(self.clear_all(yes)),
        }
    }
}

/// How a run ends after `reply`: with its text and exit code 0 where the
/// store was written out or did not have to be, with the error and exit
/// code 1 where writing failed.
pub open spec fn concluded(report: Report, reply: Reply, write_error: Option<String>) -> bool {
    match write_error {
        None => {
            &&& report.stdout@ == reply.text@
            &&& report.stderr@ == Seq::<char>::empty()
            &&& report.exit_code == 0
        },
        Some(error) => {
            &&& report.stdout@ == Seq::<char>::empty()
            &&& report.stderr@ == "Error: "@ + error@ + "\n"@
            &&& report.exit_code == 1
        },
    }
}

/// How a run ends after `reply`, given the error of writing the store out
/// where that failed.
pub fn conclude(reply: Reply, write_error: Option<String>) -> (report: Report)
    ensures
        concluded(report, reply, write_error),
{
    match write_error {
        None => Report { stdout: reply.text, stderr: String::new(), exit_code: 0 },
        Some(error) => {
            let mut stderr = String::from_str("Error: ");
            stderr.append(error.as_str());
            stderr.append("\n");
            Report { stdout: String::new(), stderr, exit_code: 1 }
        },
    }
}

} // verus!
