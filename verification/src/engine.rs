//! The engine: the task store together with the one task that is being
//! worked on.

use crate::invariants::{
    lemma_activated, lemma_activated_at, lemma_cleared, lemma_completed, lemma_created,
    lemma_deactivated, lemma_deleted, lemma_ticked,
};
use crate::model::{bucket_of, calmed, new_task, titled, with_id, ActiveView, EngineView, TaskError};
use crate::search::lemma_position;
use crate::store::{clear_active_startup, task_views, Store};
use crate::task::{lemma_statuses_differ, text_option, Task, TaskView};
use crate::text::is_blank;
use vstd::prelude::*;

verus! {

/// The active task: a copy of the task as it was when work on it began, and
/// the day it belongs to.
pub struct ActiveTask {
    pub day: String,
    pub task: Task,
}

impl View for ActiveTask {
    type V = ActiveView;

    open spec fn view(&self) -> ActiveView {
        ActiveView { day: self.day@, task: self.task@ }
    }
}

/// The value of an optional active task.
pub open spec fn active_view(active: Option<ActiveTask>) -> Option<ActiveView> {
    match active {
        Some(a) => Some(a@),
        None => None,
    }
}

/// The value of an optional task.
pub open spec fn task_option(task: Option<Task>) -> Option<TaskView> {
    match task {
        Some(t) => Some(t@),
        None => None,
    }
}

/// The value of the result of an operation that returns a task.
pub open spec fn task_result(r: Result<Task, TaskError>) -> Result<TaskView, TaskError> {
    match r {
        Ok(t) => Ok(t@),
        Err(e) => Err(e),
    }
}

/// The value of the result of an operation that returns nothing.
pub open spec fn error_of(r: Result<(), TaskError>) -> Option<TaskError> {
    match r {
        Ok(_) => None,
        Err(e) => Some(e),
    }
}

/// What one tick of the accrual loop did: whether a second was added to the
/// active task, and if so the productivity state that the task belongs to.
pub struct TickOutcome {
    pub accrued: bool,
    pub state_id: Option<String>,
}

/// The task engine.
pub struct Engine {
    store: Store,
    active: Option<ActiveTask>,
}

impl View for Engine {
    type V = EngineView;

    closed spec fn view(&self) -> EngineView {
        EngineView { days: self.store@, active: active_view(self.active) }
    }
}

impl Engine {
    /// The representation invariant of the store inside.
    pub closed spec fn rep_ok(&self) -> bool {
        self.store.rep_ok()
    }

    /// The invariant of the engine.
    pub open spec fn wf(&self) -> bool {
        self.rep_ok() && self@.wf()
    }

    /// An engine with an empty store and no active task.
    pub fn new() -> (engine: Engine)
        ensures
            engine.wf(),
            engine@ == EngineView::empty(),
    {
        Engine { store: Store::new(), active: None }
    }

    /// An engine around a store that was loaded. Nobody works on a task when an
    /// engine begins, so every task that the store marks `doing` is put to
    /// rest.
    pub fn from_store(store: Store) -> (engine: Engine)
        requires
            store.wf(),
        ensures
            engine.wf(),
            engine@ == (EngineView { days: calmed(store@), active: None }),
    {
        let mut store = store;
        clear_active_startup(&mut store);
        proof {
            lemma_statuses_differ();
        }
        Engine { store, active: None }
    }

    /// The store, to be listed or written down.
    pub fn store(&self) -> (store: &Store)
        requires
            self.wf(),
        ensures
            store.wf(),
            store@ == self@.days,
    {
        &self.store
    }

    /// A copy of the active task as it was when work on it began.
    pub fn get_active_task(&self) -> (task: Option<Task>)
        ensures
            task_option(task) == (match self@.active {
                Some(a) => Some(a.task),
                None => None,
            }),
    {
        match &self.active {
            Some(a) => Some(a.task.clone()),
            None => None,
        }
    }

    /// Copies of the tasks of `day` that wait or are worked on, or of its
    /// finished ones, in their order.
    pub fn list(&self, day: &str, done: bool) -> (list: Vec<Task>)
        requires
            self.wf(),
        ensures
            task_views(list@) == (if done {
                bucket_of(self@.days, day@).done
            } else {
                bucket_of(self@.days, day@).todo
            }),
    {
        self.store.get_tasks(day, done)
    }

    /// Whether the active task is the task `id` of `day`.
    fn is_active(&self, day: &str, id: &String) -> (r: bool)
        ensures
            r == self@.is_active(day@, id@),
    {
        match &self.active {
            Some(a) => {
                let wanted = String::from_str(day);
                a.day == wanted && a.task.id == *id
            },
            None => false,
        }
    }

    /// Puts the active task, if it stands in the store, back to `todo`.
    fn release(&mut self)
        requires
            old(self).wf(),
        ensures
            final(self).rep_ok(),
            final(self)@ == (EngineView { days: old(self)@.released(), ..old(self)@ }),
    {
        match &self.active {
            Some(a) => {
                match self.store.day_index(a.day.as_str()) {
                    Some(k) => {
                        match self.store.bucket(k).todo_index_of(a.task.id.as_str()) {
                            Some(i) => {
                                let _ = self.store.set_status(k, i, String::from_str("todo"));
                            },
                            None => {},
                        }
                    },
                    None => {},
                }
            },
            None => {},
        }
    }

    /// Makes the waiting task `i` of day `k`, whose key is `day`, the active
    /// task.
    fn activate_at(&mut self, day: &str, k: usize, i: usize) -> (task: Task)
        requires
            old(self).wf(),
            k < old(self)@.days.len(),
            i < old(self)@.days[k as int].todo.len(),
            old(self)@.days[k as int].day == day@,
        ensures
            final(self).wf(),
            final(self)@ == old(self)@.activated_at(k as int, i as int),
            final(self)@.active == Some(ActiveView { day: day@, task: task@ }),
    {
        proof {
            lemma_activated_at(self@, k as int, i as int);
        }
        let same = self.is_active(day, &self.store.bucket(k).todo_at(i).id);
        if !same {
            self.release();
        }
        let task = self.store.set_status(k, i, String::from_str("doing"));
        self.active = Some(ActiveTask { day: String::from_str(day), task: task.clone() });
        task
    }

    /// Adds a task to the waiting ones of `day`. The task is refused, in this
    /// order, where the title is blank, where the day already holds a task
    /// with this title, waiting or finished, and where it holds one with this
    /// identifier. A blank title changes nothing; every other call leaves
    /// `day` among the days of the store.
    pub fn create(&mut self, day: &str, title: &str, state_id: Option<String>, id: String) -> (r:
        Result<Task, TaskError>)
        requires
            old(self).wf(),
        ensures
            final(self).wf(),
            final(self)@ == old(self)@.created(day@, title@, text_option(state_id), id@),
            match r {
                Ok(task) => old(self)@.create_error(day@, title@, id@) is None && task@
                    == new_task(day@, title@, text_option(state_id), id@),
                Err(e) => old(self)@.create_error(day@, title@, id@) == Some(e),
            },
    {
        proof {
            lemma_created(self@, day@, title@, text_option(state_id), id@);
        }
        if is_blank(title) {
            return Err(TaskError::MissingTitle);
        }
        let k = self.store.ensure_day(day);
        let bucket = self.store.bucket(k);
        proof {
            lemma_position(bucket.todo(), titled(title@));
            lemma_position(bucket.done(), titled(title@));
            lemma_position(bucket.todo(), with_id(id@));
            lemma_position(bucket.done(), with_id(id@));
        }
        if bucket.has_title(title) {
            return Err(TaskError::DuplicateTitle);
        }
        if bucket.has_id(id.as_str()) {
            return Err(TaskError::DuplicateId);
        }
        let task = Task {
            id,
            title: String::from_str(title),
            status: String::from_str("todo"),
            created_at: String::from_str(day),
            time_spent: 0,
            state_id,
        };
        let copy = task.clone();
        self.store.push_todo(k, task);
        Ok(copy)
    }

    /// Makes the first waiting task of `day` with this title the active task:
    /// it is marked `doing`, and the task that was active before waits again.
    /// It is refused where there is no such task, and where the task is
    /// marked `doing` already. Every call leaves `day` among the days of the
    /// store.
    pub fn activate(&mut self, day: &str, title: &str) -> (r: Result<Task, TaskError>)
        requires
            old(self).wf(),
        ensures
            final(self).wf(),
            final(self)@ == old(self)@.activated(day@, title@),
            task_result(r) == old(self)@.activate_result(day@, title@),
            r matches Ok(task) ==> final(self)@.active == Some(
                ActiveView { day: day@, task: task@ },
            ),
    {
        proof {
            lemma_activated(self@, day@, title@);
        }
        let k = self.store.ensure_day(day);
        let found = self.store.bucket(k).find_title(title);
        match found {
            None => Err(TaskError::NotFound),
            Some(i) => {
                if self.store.bucket(k).todo_at(i).is_doing() {
                    return Err(TaskError::AlreadyActive);
                }
                let task = self.activate_at(day, k, i);
                Ok(task)
            },
        }
    }

    /// Makes the waiting task `id` of `day` the active task, whatever its
    /// status: it is marked `doing`, and the task that was active before, if
    /// it is another one, waits again. It is refused, and nothing changes,
    /// where the day holds no such waiting task.
    pub fn set_active_task(&mut self, day: &str, id: &str) -> (r: Result<Task, TaskError>)
        requires
            old(self).wf(),
        ensures
            final(self).wf(),
            final(self)@ == old(self)@.set_active(day@, id@),
            task_result(r) == old(self)@.set_active_result(day@, id@),
            r matches Ok(task) ==> final(self)@.active == Some(
                ActiveView { day: day@, task: task@ },
            ),
    {
        match self.store.day_index(day) {
            None => Err(TaskError::NotFound),
            Some(k) => {
                match self.store.bucket(k).todo_index_of(id) {
                    None => Err(TaskError::NotFound),
                    Some(i) => Ok(self.activate_at(day, k, i)),
                }
            },
        }
    }

    /// Gives up the active task: it waits again, and no task is active.
    pub fn clear_active_task(&mut self)
        requires
            old(self).wf(),
        ensures
            final(self).wf(),
            final(self)@ == old(self)@.cleared(),
            final(self)@.active is None,
    {
        proof {
            lemma_cleared(self@);
        }
        self.release();
        self.active = None;
    }

    /// Stops the work on the first waiting task of `day` with this title: it
    /// waits again, and no task is active. It is refused where there is no
    /// such task, and where the task is not marked `doing`. Every call leaves
    /// `day` among the days of the store.
    pub fn deactivate(&mut self, day: &str, title: &str) -> (r: Result<(), TaskError>)
        requires
            old(self).wf(),
        ensures
            final(self).wf(),
            final(self)@ == old(self)@.deactivated(day@, title@),
            error_of(r) == old(self)@.deactivate_error(day@, title@),
    {
        proof {
            lemma_deactivated(self@, day@, title@);
        }
        let k = self.store.ensure_day(day);
        let found = self.store.bucket(k).find_title(title);
        match found {
            None => Err(TaskError::NotFound),
            Some(i) => {
                if !self.store.bucket(k).todo_at(i).is_doing() {
                    return Err(TaskError::NotActive);
                }
                let _ = self.store.set_status(k, i, String::from_str("todo"));
                self.active = None;
                Ok(())
            },
        }
    }

    /// Finishes the first waiting task of `day` with this title: it leaves the
    /// waiting tasks, which keep their order, and joins the finished ones,
    /// marked `done`; if it was the active task, no task is active now. It is
    /// refused where there is no such task. Every call leaves `day` among the
    /// days of the store.
    pub fn complete(&mut self, day: &str, title: &str) -> (r: Result<Task, TaskError>)
        requires
            old(self).wf(),
        ensures
            final(self).wf(),
            final(self)@ == old(self)@.completed(day@, title@),
            task_result(r) == old(self)@.complete_result(day@, title@),
    {
        proof {
            lemma_completed(self@, day@, title@);
        }
        let k = self.store.ensure_day(day);
        let found = self.store.bucket(k).find_title(title);
        match found {
            None => Err(TaskError::NotFound),
            Some(i) => {
                let task = self.store.finish(k, i);
                if self.is_active(day, &task.id) {
                    self.active = None;
                }
                Ok(task)
            },
        }
    }

    /// Deletes the first waiting task of `day` with this title: it leaves the
    /// waiting tasks, the last of which takes its place; if it was the active
    /// task, no task is active now. It is refused where there is no such
    /// task. Every call leaves `day` among the days of the store.
    pub fn delete(&mut self, day: &str, title: &str) -> (r: Result<(), TaskError>)
        requires
            old(self).wf(),
        ensures
            final(self).wf(),
            final(self)@ == old(self)@.deleted(day@, title@),
            error_of(r) == old(self)@.delete_error(day@, title@),
    {
        proof {
            lemma_deleted(self@, day@, title@);
        }
        let k = self.store.ensure_day(day);
        let found = self.store.bucket(k).find_title(title);
        match found {
            None => Err(TaskError::NotFound),
            Some(i) => {
                let gone = self.is_active(day, &self.store.bucket(k).todo_at(i).id);
                self.store.remove_todo(k, i);
                if gone {
                    self.active = None;
                }
                Ok(())
            },
        }
    }

    /// One tick of the accrual loop on the day `today`. The waiting task of
    /// that day that has the active task's identifier gets one more second,
    /// if it is marked `doing` and its counter is not full. Where there is no
    /// active task or no such task, nothing changes.
    pub fn tick(&mut self, today: &str) -> (outcome: TickOutcome)
        requires
            old(self).wf(),
        ensures
            final(self).wf(),
            final(self)@ == old(self)@.ticked(today@),
            outcome.accrued == old(self)@.tick_slot(today@) is Some,
            text_option(outcome.state_id) == (match old(self)@.tick_slot(today@) {
                Some((k, i)) => old(self)@.days[k].todo[i].state_id,
                None => None,
            }),
    {
        proof {
            lemma_ticked(self@, today@);
        }
        let idle = TickOutcome { accrued: false, state_id: None };
        match &self.active {
            None => idle,
            Some(a) => {
                match self.store.day_index(today) {
                    None => idle,
                    Some(k) => {
                        match self.store.bucket(k).todo_index_of(a.task.id.as_str()) {
                            None => idle,
                            Some(i) => {
                                let task = self.store.bucket(k).todo_at(i);
                                if task.is_doing() && task.time_spent < u64::MAX {
                                    let state_id = crate::task::clone_text_option(&task.state_id);
                                    self.store.add_second(k, i);
                                    TickOutcome { accrued: true, state_id }
                                } else {
                                    idle
                                }
                            },
                        }
                    },
                }
            },
        }
    }
}

} // verus!
