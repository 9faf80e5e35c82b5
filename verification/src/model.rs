//! The mathematical model of the task store and of the engine around it:
//! what a store holds, which states are well-formed, and what each operation
//! makes of a state.

use crate::search::{has, position};
use crate::task::{status_doing, status_done, status_todo, TaskView};
use crate::text::blank;
use vstd::prelude::*;

verus! {

/// Why an operation on tasks was refused.
#[derive(Debug, Clone, Copy, PartialEq, Eq, Structural)]
pub enum TaskError {
    /// No title was given, or a blank one.
    MissingTitle,
    /// The day already holds a task with this title, waiting or finished.
    DuplicateTitle,
    /// The day already holds a task with this identifier.
    DuplicateId,
    /// The day holds no waiting task with this title.
    NotFound,
    /// The task is the active one already.
    AlreadyActive,
    /// The task is not being worked on.
    NotActive,
    /// The logical day that was asked for lies beyond the calendar.
    NoDay,
}

/// One logical day: its key, the tasks that wait or are worked on, and the
/// finished ones. A task joins the end of its list, and the finished ones
/// stay in the order in which they came. So do the waiting ones while none
/// is deleted: finishing a task closes the gap that it leaves and keeps the
/// order of the others, but deleting one moves the last waiting task into the
/// gap, so that deleting the first of three leaves the third before the
/// second.
pub struct DayView {
    pub day: Seq<char>,
    pub todo: Seq<TaskView>,
    pub done: Seq<TaskView>,
}

/// The property of having the title `title`.
pub open spec fn titled(title: Seq<char>) -> spec_fn(TaskView) -> bool {
    |t: TaskView| t.title == title
}

/// The property of having the identifier `id`.
pub open spec fn with_id(id: Seq<char>) -> spec_fn(TaskView) -> bool {
    |t: TaskView| t.id == id
}

/// The property of being the day `day`.
pub open spec fn on_day(day: Seq<char>) -> spec_fn(DayView) -> bool {
    |d: DayView| d.day == day
}

/// No two tasks share an identifier.
pub open spec fn distinct_ids(tasks: Seq<TaskView>) -> bool {
    forall|i: int, j: int|
        0 <= i < j < tasks.len() ==> (#[trigger] tasks[i]).id != (#[trigger] tasks[j]).id
}

/// No two tasks share a title.
pub open spec fn distinct_titles(tasks: Seq<TaskView>) -> bool {
    forall|i: int, j: int|
        0 <= i < j < tasks.len() ==> (#[trigger] tasks[i]).title != (#[trigger] tasks[j]).title
}

/// No two days share a key.
pub open spec fn distinct_days(days: Seq<DayView>) -> bool {
    forall|i: int, j: int|
        0 <= i < j < days.len() ==> (#[trigger] days[i]).day != (#[trigger] days[j]).day
}

/// A sequence without its element at `i`, the last element moved into the gap.
pub open spec fn swap_removed<T>(s: Seq<T>, i: int) -> Seq<T> {
    if i == s.len() - 1 {
        s.drop_last()
    } else {
        s.update(i, s.last()).drop_last()
    }
}

/// The tasks after `task` was stored under its identifier: in the place of the
/// task that had the identifier, or else at the end.
pub open spec fn upserted(tasks: Seq<TaskView>, task: TaskView) -> Seq<TaskView> {
    match position(tasks, with_id(task.id)) {
        Some(j) => tasks.update(j, task),
        None => tasks.push(task),
    }
}

/// A task that nobody works on: `doing` becomes `resting`.
pub open spec fn calm(task: TaskView, resting: Seq<char>) -> TaskView {
    if task.status == status_doing() {
        task.with_status(resting)
    } else {
        task
    }
}

/// The tasks with every `doing` turned into `resting`.
pub open spec fn calmed_tasks(tasks: Seq<TaskView>, resting: Seq<char>) -> Seq<TaskView> {
    Seq::new(tasks.len(), |i: int| calm(tasks[i], resting))
}

impl DayView {
    /// A day without tasks.
    pub open spec fn empty(day: Seq<char>) -> DayView {
        DayView { day, todo: Seq::empty(), done: Seq::empty() }
    }

    /// Identifiers are unique among the waiting tasks and among the finished
    /// ones.
    pub open spec fn wf(self) -> bool {
        distinct_ids(self.todo) && distinct_ids(self.done)
    }

    /// Whether a task of the day, waiting or finished, has this title.
    pub open spec fn has_title(self, title: Seq<char>) -> bool {
        has(self.todo, titled(title)) || has(self.done, titled(title))
    }

    /// Whether a task of the day, waiting or finished, has this identifier.
    pub open spec fn has_id(self, id: Seq<char>) -> bool {
        has(self.todo, with_id(id)) || has(self.done, with_id(id))
    }

    /// No two tasks of the day, waiting or finished, share a title.
    pub open spec fn titles_unique(self) -> bool {
        distinct_titles(self.todo + self.done)
    }

    /// The day with nobody at work: a waiting task marked `doing` waits again,
    /// a finished task marked `doing` is finished.
    pub open spec fn calmed(self) -> DayView {
        DayView {
            day: self.day,
            todo: calmed_tasks(self.todo, status_todo()),
            done: calmed_tasks(self.done, status_done()),
        }
    }
}

/// The days of a store are well-formed: the keys are unique, and so are the
/// identifiers within each list of a day.
pub open spec fn store_wf(days: Seq<DayView>) -> bool {
    &&& distinct_days(days)
    &&& forall|k: int| 0 <= k < days.len() ==> (#[trigger] days[k]).wf()
}

/// Each day holds at most one task per title.
pub open spec fn titles_unique(days: Seq<DayView>) -> bool {
    forall|k: int| 0 <= k < days.len() ==> (#[trigger] days[k]).titles_unique()
}

/// The days with `day` among them: added empty at the end where it was
/// missing.
pub open spec fn with_day(days: Seq<DayView>, day: Seq<char>) -> Seq<DayView> {
    if position(days, on_day(day)) is Some {
        days
    } else {
        days.push(DayView::empty(day))
    }
}

/// The index of `day` in `with_day(days, day)`.
pub open spec fn slot_of(days: Seq<DayView>, day: Seq<char>) -> int {
    match position(days, on_day(day)) {
        Some(k) => k,
        None => days.len() as int,
    }
}

/// What the store holds for `day`; an empty day where it holds none.
pub open spec fn bucket_of(days: Seq<DayView>, day: Seq<char>) -> DayView {
    match position(days, on_day(day)) {
        Some(k) => days[k],
        None => DayView::empty(day),
    }
}

/// The days with the waiting task `i` of day `k` replaced by `task`.
pub open spec fn with_task(days: Seq<DayView>, k: int, i: int, task: TaskView) -> Seq<DayView> {
    days.update(k, DayView { todo: days[k].todo.update(i, task), ..days[k] })
}

/// Where the waiting task `id` of `day` stands: the index of the day and the
/// index of the task among those that wait.
pub open spec fn find_task(days: Seq<DayView>, day: Seq<char>, id: Seq<char>) -> Option<
    (int, int),
> {
    match position(days, on_day(day)) {
        None => None,
        Some(k) => match position(days[k].todo, with_id(id)) {
            None => None,
            Some(i) => Some((k, i)),
        },
    }
}

/// The days with nobody at work.
pub open spec fn calmed(days: Seq<DayView>) -> Seq<DayView> {
    Seq::new(days.len(), |k: int| days[k].calmed())
}

/// The tasks that a list keyed by identifier holds after `tasks` were stored in
/// it one by one.
pub open spec fn collected(tasks: Seq<TaskView>) -> Seq<TaskView>
    decreases tasks.len(),
{
    if tasks.len() == 0 {
        Seq::empty()
    } else {
        upserted(collected(tasks.drop_last()), tasks.last())
    }
}

/// The day that a record stands for.
pub open spec fn day_of_record(record: DayView) -> DayView {
    DayView { day: record.day, todo: collected(record.todo), done: collected(record.done) }
}

/// The days after `day` was stored under its key: in the place of the day that
/// had the key, or else at the end.
pub open spec fn with_bucket(days: Seq<DayView>, day: DayView) -> Seq<DayView> {
    match position(days, on_day(day.day)) {
        Some(k) => days.update(k, day),
        None => days.push(day),
    }
}

/// The days that a store holds after the records were loaded into it one by
/// one.
pub open spec fn restored(records: Seq<DayView>) -> Seq<DayView>
    decreases records.len(),
{
    if records.len() == 0 {
        Seq::empty()
    } else {
        with_bucket(restored(records.drop_last()), day_of_record(records.last()))
    }
}

/// The task that is being worked on, as it was when work on it began, and the
/// day it belongs to.
pub struct ActiveView {
    pub day: Seq<char>,
    pub task: TaskView,
}

/// The state of the engine: the days of the store and the active task.
pub struct EngineView {
    pub days: Seq<DayView>,
    pub active: Option<ActiveView>,
}

/// A task as `create` makes it.
pub open spec fn new_task(
    day: Seq<char>,
    title: Seq<char>,
    state_id: Option<Seq<char>>,
    id: Seq<char>,
) -> TaskView {
    TaskView { id, title, status: status_todo(), created_at: day, time_spent: 0, state_id }
}

impl EngineView {
    /// The engine before anything was done with it.
    pub open spec fn empty() -> EngineView {
        EngineView { days: Seq::empty(), active: None }
    }

    /// Whether the active task is the task `id` of `day`.
    pub open spec fn is_active(self, day: Seq<char>, id: Seq<char>) -> bool {
        self.active matches Some(a) && a.day == day && a.task.id == id
    }

    /// Where the active task stands in the store.
    pub open spec fn active_slot(self) -> Option<(int, int)> {
        match self.active {
            None => None,
            Some(a) => find_task(self.days, a.day, a.task.id),
        }
    }

    /// The invariant of the engine. The store is well-formed; a task is marked
    /// `doing` only if it waits and is the active task; and the active task, if
    /// there is one, stands in the store and is marked `doing`.
    pub open spec fn wf(self) -> bool {
        &&& store_wf(self.days)
        &&& forall|k: int, i: int|
            0 <= k < self.days.len() && 0 <= i < self.days[k].todo.len() && (
            #[trigger] self.days[k].todo[i]).status == status_doing() ==> self.is_active(
                self.days[k].day,
                self.days[k].todo[i].id,
            )
        &&& forall|k: int, i: int|
            0 <= k < self.days.len() && 0 <= i < self.days[k].done.len() ==> (
            #[trigger] self.days[k].done[i]).status != status_doing()
        &&& self.active is Some ==> {
            &&& self.active_slot() matches Some(slot)
            &&& self.days[slot.0].todo[slot.1].status == status_doing()
        }
    }

    /// The state with `day` among its days.
    pub open spec fn with_day(self, day: Seq<char>) -> EngineView {
        EngineView { days: with_day(self.days, day), ..self }
    }

    /// The days after the active task, if it stands in the store, was put back
    /// to `todo`.
    pub open spec fn released(self) -> Seq<DayView> {
        match self.active_slot() {
            None => self.days,
            Some((k, i)) => with_task(
                self.days,
                k,
                i,
                self.days[k].todo[i].with_status(status_todo()),
            ),
        }
    }

    /// The state after the active task was given up.
    pub open spec fn cleared(self) -> EngineView {
        EngineView { days: self.released(), active: None }
    }

    /// The state after the waiting task `i` of day `k` became the active task:
    /// the task that was active before, if it is another one, waits again, and
    /// the new one is marked `doing`.
    pub open spec fn activated_at(self, k: int, i: int) -> EngineView {
        let day = self.days[k].day;
        let days = if self.is_active(day, self.days[k].todo[i].id) {
            self.days
        } else {
            self.released()
        };
        let task = days[k].todo[i].with_status(status_doing());
        EngineView { days: with_task(days, k, i, task), active: Some(ActiveView { day, task }) }
    }

    /// Why `create` refuses, if it does.
    pub open spec fn create_error(self, day: Seq<char>, title: Seq<char>, id: Seq<char>) -> Option<
        TaskError,
    > {
        let bucket = bucket_of(self.days, day);
        if blank(title) {
            Some(TaskError::MissingTitle)
        } else if bucket.has_title(title) {
            Some(TaskError::DuplicateTitle)
        } else if bucket.has_id(id) {
            Some(TaskError::DuplicateId)
        } else {
            None
        }
    }

    /// The state after `create`. A blank title changes nothing; every other
    /// call leaves `day` among the days.
    pub open spec fn created(
        self,
        day: Seq<char>,
        title: Seq<char>,
        state_id: Option<Seq<char>>,
        id: Seq<char>,
    ) -> EngineView {
        let days = with_day(self.days, day);
        let k = slot_of(self.days, day);
        match self.create_error(day, title, id) {
            Some(TaskError::MissingTitle) => self,
            Some(_) => EngineView { days, ..self },
            None => EngineView {
                days: days.update(
                    k,
                    DayView { todo: days[k].todo.push(new_task(day, title, state_id, id)), ..days[k] },
                ),
                ..self
            },
        }
    }

    /// What `activate` returns: the first waiting task of `day` with this
    /// title, marked `doing`.
    pub open spec fn activate_result(self, day: Seq<char>, title: Seq<char>) -> Result<
        TaskView,
        TaskError,
    > {
        let bucket = bucket_of(self.days, day);
        match position(bucket.todo, titled(title)) {
            None => Err(TaskError::NotFound),
            Some(i) => if bucket.todo[i].status == status_doing() {
                Err(TaskError::AlreadyActive)
            } else {
                Ok(bucket.todo[i].with_status(status_doing()))
            },
        }
    }

    /// The state after `activate`.
    pub open spec fn activated(self, day: Seq<char>, title: Seq<char>) -> EngineView {
        let with = self.with_day(day);
        match (self.activate_result(day, title), position(bucket_of(self.days, day).todo, titled(title))) {
            (Ok(_), Some(i)) => with.activated_at(slot_of(self.days, day), i),
            _ => with,
        }
    }

    /// What `set_active_task` returns: the waiting task `id` of `day`, marked
    /// `doing`.
    pub open spec fn set_active_result(self, day: Seq<char>, id: Seq<char>) -> Result<
        TaskView,
        TaskError,
    > {
        match find_task(self.days, day, id) {
            None => Err(TaskError::NotFound),
            Some((k, i)) => Ok(self.days[k].todo[i].with_status(status_doing())),
        }
    }

    /// The state after `set_active_task`.
    pub open spec fn set_active(self, day: Seq<char>, id: Seq<char>) -> EngineView {
        match find_task(self.days, day, id) {
            None => self,
            Some((k, i)) => self.activated_at(k, i),
        }
    }

    /// Why `deactivate` refuses, if it does.
    pub open spec fn deactivate_error(self, day: Seq<char>, title: Seq<char>) -> Option<TaskError> {
        let bucket = bucket_of(self.days, day);
        match position(bucket.todo, titled(title)) {
            None => Some(TaskError::NotFound),
            Some(i) => if bucket.todo[i].status == status_doing() {
                None
            } else {
                Some(TaskError::NotActive)
            },
        }
    }

    /// The state after `deactivate`.
    pub open spec fn deactivated(self, day: Seq<char>, title: Seq<char>) -> EngineView {
        let days = with_day(self.days, day);
        let k = slot_of(self.days, day);
        match (self.deactivate_error(day, title), position(days[k].todo, titled(title))) {
            (None, Some(i)) => EngineView {
                days: with_task(days, k, i, days[k].todo[i].with_status(status_todo())),
                active: None,
            },
            _ => EngineView { days, ..self },
        }
    }

    /// What `complete` returns: the first waiting task of `day` with this
    /// title, marked `done`.
    pub open spec fn complete_result(self, day: Seq<char>, title: Seq<char>) -> Result<
        TaskView,
        TaskError,
    > {
        let bucket = bucket_of(self.days, day);
        match position(bucket.todo, titled(title)) {
            None => Err(TaskError::NotFound),
            Some(i) => Ok(bucket.todo[i].with_status(status_done())),
        }
    }

    /// The state after `complete`: the task has left the waiting ones, keeping
    /// their order, and stands among the finished ones; if it was the active
    /// task, there is none now.
    pub open spec fn completed(self, day: Seq<char>, title: Seq<char>) -> EngineView {
        let days = with_day(self.days, day);
        let k = slot_of(self.days, day);
        match position(days[k].todo, titled(title)) {
            None => EngineView { days, ..self },
            Some(i) => {
                let task = days[k].todo[i].with_status(status_done());
                EngineView {
                    days: days.update(
                        k,
                        DayView {
                            day: days[k].day,
                            todo: days[k].todo.remove(i),
                            done: upserted(days[k].done, task),
                        },
                    ),
                    active: if self.is_active(day, task.id) {
                        None
                    } else {
                        self.active
                    },
                }
            },
        }
    }

    /// Why `delete` refuses, if it does.
    pub open spec fn delete_error(self, day: Seq<char>, title: Seq<char>) -> Option<TaskError> {
        if position(bucket_of(self.days, day).todo, titled(title)) is None {
            Some(TaskError::NotFound)
        } else {
            None
        }
    }

    /// The state after `delete`: the task has left the waiting ones, the last
    /// of them standing in its place; if it was the active task, there is none
    /// now.
    pub open spec fn deleted(self, day: Seq<char>, title: Seq<char>) -> EngineView {
        let days = with_day(self.days, day);
        let k = slot_of(self.days, day);
        match position(days[k].todo, titled(title)) {
            None => EngineView { days, ..self },
            Some(i) => EngineView {
                days: days.update(k, DayView { todo: swap_removed(days[k].todo, i), ..days[k] }),
                active: if self.is_active(day, days[k].todo[i].id) {
                    None
                } else {
                    self.active
                },
            },
        }
    }

    /// The task that a tick on the day `today` accrues time on: the waiting
    /// task of that day with the active task's identifier, if it is marked
    /// `doing` and its counter is not full.
    pub open spec fn tick_slot(self, today: Seq<char>) -> Option<(int, int)> {
        match self.active {
            None => None,
            Some(a) => match find_task(self.days, today, a.task.id) {
                None => None,
                Some((k, i)) => if self.days[k].todo[i].status == status_doing()
                    && self.days[k].todo[i].time_spent < u64::MAX {
                    Some((k, i))
                } else {
                    None
                },
            },
        }
    }

    /// The state after a tick on the day `today`.
    pub open spec fn ticked(self, today: Seq<char>) -> EngineView {
        match self.tick_slot(today) {
            None => self,
            Some((k, i)) => EngineView {
                days: with_task(self.days, k, i, self.days[k].todo[i].with_second()),
                ..self
            },
        }
    }

    /// The state after `n` ticks on the day `today`.
    pub open spec fn ticked_times(self, today: Seq<char>, n: nat) -> EngineView
        decreases n,
    {
        if n == 0 {
            self
        } else {
            self.ticked_times(today, (n - 1) as nat).ticked(today)
        }
    }
}

} // verus!
