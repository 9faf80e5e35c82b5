//! The counters of what a user got done.

use crate::reply::{accepted, reply_view};
use crate::text::{appended, decimal, decimal_text};
use vstd::prelude::*;

verus! {

/// What a user got done so far: tasks finished, work sessions completed, and
/// seconds spent with the program.
#[derive(Debug)]
pub struct User {
    pub tasks_done: u64,
    pub pomodoro_done: u64,
    pub time_in_salieri: u64,
}

impl Default for User {
    fn default() -> (user: Self)
        ensures
            user.tasks_done == 0,
            user.pomodoro_done == 0,
            user.time_in_salieri == 0,
    {
        User { tasks_done: 0, pomodoro_done: 0, time_in_salieri: 0 }
    }
}

impl Clone for User {
    fn clone(&self) -> (r: Self)
        ensures
            r == *self,
    {
        User {
            tasks_done: self.tasks_done,
            pomodoro_done: self.pomodoro_done,
            time_in_salieri: self.time_in_salieri,
        }
    }
}

/// A counter after one more: it stops at the largest value that it can hold.
pub open spec fn counted(n: u64) -> u64 {
    if n < u64::MAX {
        (n + 1) as u64
    } else {
        n
    }
}

/// What the counters answer: `tasks done: ` and the new count.
pub open spec fn count_reply(n: u64) -> Seq<char> {
    "tasks done: "@ + decimal(n as nat)
}

/// Counts one more finished task and answers with the new count.
pub fn increment_tasks_done(user: &mut User) -> (r: Result<String, String>)
    ensures
        *final(user) == (User { tasks_done: counted(old(user).tasks_done), ..*old(user) }),
        reply_view(r) == accepted(count_reply(final(user).tasks_done)),
{
    if user.tasks_done < u64::MAX {
        user.tasks_done = user.tasks_done + 1;
    }
    Ok(appended("tasks done: ", decimal_text(user.tasks_done).as_str()))
}

/// Counts one more completed work session and answers with the new count.
pub fn increment_pomodoros_done(user: &mut User) -> (r: Result<String, String>)
    ensures
        *final(user) == (User { pomodoro_done: counted(old(user).pomodoro_done), ..*old(user) }),
        reply_view(r) == accepted(count_reply(final(user).pomodoro_done)),
{
    if user.pomodoro_done < u64::MAX {
        user.pomodoro_done = user.pomodoro_done + 1;
    }
    Ok(appended("tasks done: ", decimal_text(user.pomodoro_done).as_str()))
}

} // verus!
