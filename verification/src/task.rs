//! A task and its mathematical value.

use vstd::prelude::*;

verus! {

/// One unit of work. `status` is `"todo"`, `"doing"` or `"done"`; `created_at`
/// is the logical day the task belongs to; `time_spent` counts seconds.
#[derive(Debug)]
pub struct Task {
    pub id: String,
    pub title: String,
    pub status: String,
    pub created_at: String,
    pub time_spent: u64,
    pub state_id: Option<String>,
}

/// The mathematical value of a `Task`.
pub struct TaskView {
    pub id: Seq<char>,
    pub title: Seq<char>,
    pub status: Seq<char>,
    pub created_at: Seq<char>,
    pub time_spent: nat,
    pub state_id: Option<Seq<char>>,
}

/// The value of an optional text.
pub open spec fn text_option(s: Option<String>) -> Option<Seq<char>> {
    match s {
        Some(text) => Some(text@),
        None => None,
    }
}

impl View for Task {
    type V = TaskView;

    open spec fn view(&self) -> TaskView {
        TaskView {
            id: self.id@,
            title: self.title@,
            status: self.status@,
            created_at: self.created_at@,
            time_spent: self.time_spent as nat,
            state_id: text_option(self.state_id),
        }
    }
}

/// A copy of an optional text.
pub fn clone_text_option(s: &Option<String>) -> (r: Option<String>)
    ensures
        text_option(r) == text_option(*s),
{
    match s {
        Some(text) => Some(text.clone()),
        None => None,
    }
}

impl Clone for Task {
    fn clone(&self) -> (r: Self)
        ensures
            r@ == self@,
    {
        Task {
            id: self.id.clone(),
            title: self.title.clone(),
            status: self.status.clone(),
            created_at: self.created_at.clone(),
            time_spent: self.time_spent,
            state_id: clone_text_option(&self.state_id),
        }
    }
}

/// The status of a task that waits.
pub open spec fn status_todo() -> Seq<char> {
    "todo"@
}

/// The status of the task that is being worked on.
pub open spec fn status_doing() -> Seq<char> {
    "doing"@
}

/// The status of a finished task.
pub open spec fn status_done() -> Seq<char> {
    "done"@
}

/// The three statuses are three different texts.
pub proof fn lemma_statuses_differ()
    ensures
        status_todo() != status_doing(),
        status_todo() != status_done(),
        status_doing() != status_done(),
{
    reveal_strlit("todo");
    reveal_strlit("doing");
    reveal_strlit("done");
    assert(status_doing().len() == 5);
    assert(status_todo()[0] == 't');
}

impl TaskView {
    /// The same task under another status.
    pub open spec fn with_status(self, status: Seq<char>) -> TaskView {
        TaskView { status, ..self }
    }

    /// The same task with one more second spent on it.
    pub open spec fn with_second(self) -> TaskView {
        TaskView { time_spent: self.time_spent + 1, ..self }
    }
}

impl Task {
    /// Whether the task is being worked on.
    pub fn is_doing(&self) -> (r: bool)
        ensures
            r == (self@.status == status_doing()),
    {
        let doing = String::from_str("doing");
        self.status == doing
    }
}

} // verus!
