//! The day-bucketed task store.

use crate::model::{
    bucket_of, calm, calmed, calmed_tasks, collected, distinct_ids, on_day, restored, slot_of,
    store_wf, swap_removed, titled, upserted, with_bucket, with_day, with_id, with_task, DayView,
};
use crate::ordered::{
    day_entries, days_at, days_at_mut, days_index_of, days_insert, days_key_at, days_len, days_new,
    found, has_key, inserted, key_index, task_entries, tasks_at, tasks_at_mut, tasks_index_of,
    tasks_insert, tasks_len, tasks_new, tasks_shift_remove, tasks_swap_remove, DayMap, TaskMap,
};
use crate::search::{is_first, position};
use crate::task::{status_done, status_todo, Task, TaskView};
use vstd::prelude::*;

verus! {

/// The entries of the two maps of a bucket.
pub struct BucketEntries {
    pub todo: Seq<(Seq<char>, TaskView)>,
    pub done: Seq<(Seq<char>, TaskView)>,
}

/// The tasks of a map, without their keys.
pub open spec fn values(entries: Seq<(Seq<char>, TaskView)>) -> Seq<TaskView> {
    Seq::new(entries.len(), |i: int| entries[i].1)
}

/// Every task is stored under its identifier.
pub open spec fn keyed(entries: Seq<(Seq<char>, TaskView)>) -> bool {
    forall|i: int| 0 <= i < entries.len() ==> (#[trigger] entries[i]).0 == entries[i].1.id
}

impl BucketEntries {
    /// Every task of the bucket is stored under its identifier, and no
    /// identifier occurs twice in a map.
    pub open spec fn wf(self) -> bool {
        &&& keyed(self.todo)
        &&& keyed(self.done)
        &&& distinct_ids(values(self.todo))
        &&& distinct_ids(values(self.done))
    }

    /// The day that these entries are under the key `day`.
    pub open spec fn day(self, day: Seq<char>) -> DayView {
        DayView { day, todo: values(self.todo), done: values(self.done) }
    }
}

/// The tasks of one logical day: those that wait or are worked on, and the
/// finished ones.
pub struct DayBucket {
    todo: TaskMap,
    done: TaskMap,
}

impl Default for DayBucket {
    fn default() -> (bucket: Self)
        ensures
            bucket.wf(),
            bucket.todo() == Seq::<TaskView>::empty(),
            bucket.done() == Seq::<TaskView>::empty(),
    {
        let bucket = DayBucket { todo: tasks_new(), done: tasks_new() };
        bucket
    }
}

impl DayBucket {
    /// The entries of the two maps.
    pub closed spec fn entries(&self) -> BucketEntries {
        BucketEntries { todo: task_entries(self.todo), done: task_entries(self.done) }
    }

    /// The representation invariant.
    pub open spec fn wf(&self) -> bool {
        self.entries().wf()
    }

    /// The tasks that wait or are worked on.
    pub open spec fn todo(&self) -> Seq<TaskView> {
        values(self.entries().todo)
    }

    /// The finished tasks.
    pub open spec fn done(&self) -> Seq<TaskView> {
        values(self.entries().done)
    }

    /// The waiting task `i`.
    pub(crate) fn todo_at(&self, i: usize) -> (task: &Task)
        requires
            i < self.todo().len(),
        ensures
            task@ == self.todo()[i as int],
    {
        tasks_at(&self.todo, i)
    }

    /// The index of the first waiting task with this title.
    pub(crate) fn find_title(&self, title: &str) -> (r: Option<usize>)
        ensures
            r is Some <==> position(self.todo(), titled(title@)) is Some,
            r matches Some(i) ==> position(self.todo(), titled(title@)) == Some(i as int) && i
                < self.todo().len(),
    {
        first_titled(&self.todo, title)
    }

    /// Whether a task of the bucket, waiting or finished, has this title.
    pub(crate) fn has_title(&self, title: &str) -> (r: bool)
        ensures
            r == (position(self.todo(), titled(title@)) is Some || position(
                self.done(),
                titled(title@),
            ) is Some),
    {
        first_titled(&self.todo, title).is_some() || first_titled(&self.done, title).is_some()
    }

    /// The index of the waiting task with this identifier.
    pub(crate) fn todo_index_of(&self, id: &str) -> (r: Option<usize>)
        requires
            self.wf(),
        ensures
            r is Some <==> position(self.todo(), with_id(id@)) is Some,
            r matches Some(i) ==> position(self.todo(), with_id(id@)) == Some(i as int) && i
                < self.todo().len(),
    {
        let r = tasks_index_of(&self.todo, id);
        proof {
            lemma_index_of(self.entries().todo, id@, r);
        }
        r
    }

    /// Whether a task of the bucket, waiting or finished, has this identifier.
    pub(crate) fn has_id(&self, id: &str) -> (r: bool)
        requires
            self.wf(),
        ensures
            r == (position(self.todo(), with_id(id@)) is Some || position(
                self.done(),
                with_id(id@),
            ) is Some),
    {
        let in_todo = tasks_index_of(&self.todo, id);
        let in_done = tasks_index_of(&self.done, id);
        proof {
            lemma_index_of(self.entries().todo, id@, in_todo);
            lemma_index_of(self.entries().done, id@, in_done);
        }
        in_todo.is_some() || in_done.is_some()
    }

    /// Gives the waiting task `i` the status `status` and returns a copy of it.
    pub(crate) fn set_status(&mut self, i: usize, status: String) -> (task: Task)
        requires
            old(self).wf(),
            i < old(self).todo().len(),
        ensures
            final(self).wf(),
            final(self).todo() == old(self).todo().update(
                i as int,
                old(self).todo()[i as int].with_status(status@),
            ),
            final(self).done() == old(self).done(),
            task@ == old(self).todo()[i as int].with_status(status@),
    {
        let slot = tasks_at_mut(&mut self.todo, i);
        slot.status = status;
        let task = slot.clone();
        proof {
            lemma_value_changed(
                old(self).entries().todo,
                i as int,
                old(self).todo()[i as int].with_status(status@),
            );
        }
        task
    }

    /// Adds one second to the time spent on the waiting task `i`.
    pub(crate) fn add_second(&mut self, i: usize)
        requires
            old(self).wf(),
            i < old(self).todo().len(),
            old(self).todo()[i as int].time_spent < u64::MAX,
        ensures
            final(self).wf(),
            final(self).todo() == old(self).todo().update(
                i as int,
                old(self).todo()[i as int].with_second(),
            ),
            final(self).done() == old(self).done(),
    {
        let slot = tasks_at_mut(&mut self.todo, i);
        slot.time_spent = slot.time_spent + 1;
        proof {
            lemma_value_changed(
                old(self).entries().todo,
                i as int,
                old(self).todo()[i as int].with_second(),
            );
        }
    }

    /// Adds a task, whose identifier no waiting task has, to those that wait.
    pub(crate) fn push_todo(&mut self, task: Task)
        requires
            old(self).wf(),
            position(old(self).todo(), with_id(task@.id)) is None,
        ensures
            final(self).wf(),
            final(self).todo() == old(self).todo().push(task@),
            final(self).done() == old(self).done(),
    {
        let key = task.id.clone();
        proof {
            lemma_inserted(old(self).entries().todo, task@);
        }
        tasks_insert(&mut self.todo, key, task);
    }

    /// Moves the waiting task `i` to the finished ones, marked `done`, and
    /// returns a copy of it. The waiting tasks behind it move up.
    pub(crate) fn finish(&mut self, i: usize) -> (task: Task)
        requires
            old(self).wf(),
            i < old(self).todo().len(),
        ensures
            final(self).wf(),
            task@ == old(self).todo()[i as int].with_status(status_done()),
            final(self).todo() == old(self).todo().remove(i as int),
            final(self).done() == upserted(old(self).done(), task@),
    {
        let mut task = tasks_shift_remove(&mut self.todo, i).unwrap();
        task.status = String::from_str("done");
        let copy = task.clone();
        let key = task.id.clone();
        proof {
            lemma_entry_removed(old(self).entries().todo, i as int);
            lemma_inserted(old(self).entries().done, task@);
        }
        tasks_insert(&mut self.done, key, task);
        copy
    }

    /// Takes the waiting task `i` out of the bucket. The last waiting task
    /// takes its place.
    pub(crate) fn remove_todo(&mut self, i: usize)
        requires
            old(self).wf(),
            i < old(self).todo().len(),
        ensures
            final(self).wf(),
            final(self).todo() == swap_removed(old(self).todo(), i as int),
            final(self).done() == old(self).done(),
    {
        let _ = tasks_swap_remove(&mut self.todo, i);
        proof {
            lemma_entry_swap_removed(old(self).entries().todo, i as int);
        }
    }

    /// Puts every task marked `doing` to rest: a waiting one waits again, a
    /// finished one is finished.
    pub(crate) fn calm(&mut self)
        requires
            old(self).wf(),
        ensures
            final(self).wf(),
            final(self).todo() == calmed_tasks(old(self).todo(), status_todo()),
            final(self).done() == calmed_tasks(old(self).done(), status_done()),
    {
        calm_map(&mut self.todo, String::from_str("todo"));
        calm_map(&mut self.done, String::from_str("done"));
    }

    /// Copies of the waiting tasks, or of the finished ones, in their order.
    pub(crate) fn tasks(&self, done: bool) -> (list: Vec<Task>)
        ensures
            task_views(list@) == (if done {
                self.done()
            } else {
                self.todo()
            }),
    {
        if done {
            copies(&self.done)
        } else {
            copies(&self.todo)
        }
    }
}

/// The values of a sequence of tasks.
pub open spec fn task_views(tasks: Seq<Task>) -> Seq<TaskView> {
    Seq::new(tasks.len(), |i: int| tasks[i]@)
}

/// The index of the first task of the map with this title.
fn first_titled(m: &TaskMap, title: &str) -> (r: Option<usize>)
    ensures
        r is Some <==> position(values(task_entries(*m)), titled(title@)) is Some,
        r matches Some(i) ==> position(values(task_entries(*m)), titled(title@)) == Some(i as int)
            && i < task_entries(*m).len(),
{
    let wanted = String::from_str(title);
    let n = tasks_len(m);
    let ghost tasks = values(task_entries(*m));
    let mut i: usize = 0;
    while i < n
        invariant
            i <= n,
            n == tasks.len(),
            tasks == values(task_entries(*m)),
            wanted@ == title@,
            forall|j: int| 0 <= j < i ==> !titled(title@)(#[trigger] tasks[j]),
        decreases n - i,
    {
        if tasks_at(m, i).title == wanted {
            proof {
                assert(is_first(tasks, titled(title@), i as int));
            }
            return Some(i);
        }
        i = i + 1;
    }
    None
}

/// Puts every task of the map that is marked `doing` to `resting`.
fn calm_map(m: &mut TaskMap, resting: String)
    requires
        keyed(task_entries(*old(m))),
        distinct_ids(values(task_entries(*old(m)))),
    ensures
        keyed(task_entries(*final(m))),
        distinct_ids(values(task_entries(*final(m)))),
        values(task_entries(*final(m))) == calmed_tasks(values(task_entries(*old(m))), resting@),
{
    let n = tasks_len(m);
    let ghost before = values(task_entries(*m));
    let mut i: usize = 0;
    while i < n
        invariant
            i <= n,
            n == before.len(),
            before == values(task_entries(*old(m))),
            task_entries(*m).len() == n,
            keyed(task_entries(*m)),
            distinct_ids(values(task_entries(*m))),
            forall|j: int| 0 <= j < i ==> (#[trigger] task_entries(*m)[j]).1 == calm(before[j], resting@),
            forall|j: int| i <= j < n ==> (#[trigger] task_entries(*m)[j]).1 == before[j],
        decreases n - i,
    {
        let ghost entries = task_entries(*m);
        if tasks_at(m, i).is_doing() {
            let slot = tasks_at_mut(m, i);
            slot.status = resting.clone();
            proof {
                lemma_value_changed(entries, i as int, entries[i as int].1.with_status(resting@));
            }
        }
        i = i + 1;
    }
}

/// Copies of the tasks of the map, in its order.
fn copies(m: &TaskMap) -> (list: Vec<Task>)
    ensures
        task_views(list@) == values(task_entries(*m)),
{
    let n = tasks_len(m);
    let mut list: Vec<Task> = Vec::new();
    let mut i: usize = 0;
    while i < n
        invariant
            i <= n,
            n == task_entries(*m).len(),
            list@.len() == i,
            forall|j: int| 0 <= j < i ==> (#[trigger] list@[j])@ == task_entries(*m)[j].1,
        decreases n - i,
    {
        list.push(tasks_at(m, i).clone());
        i = i + 1;
    }
    list
}

/// A lookup by key in a well-formed map finds the task with that identifier.
proof fn lemma_index_of(entries: Seq<(Seq<char>, TaskView)>, id: Seq<char>, r: Option<usize>)
    requires
        keyed(entries),
        distinct_ids(values(entries)),
        found(entries, id, r),
    ensures
        r is Some <==> position(values(entries), with_id(id)) is Some,
        r matches Some(i) ==> position(values(entries), with_id(id)) == Some(i as int) && i
            < entries.len(),
{
    let tasks = values(entries);
    match r {
        Some(i) => {
            crate::invariants::lemma_id_at(tasks, i as int);
        },
        None => {
            assert forall|j: int| 0 <= j < tasks.len() implies !with_id(id)(#[trigger] tasks[j]) by {
                assert(entries[j].0 != id);
            }
        },
    }
}

/// Changing a task in place, keeping its identifier, keeps the map
/// well-formed.
proof fn lemma_value_changed(entries: Seq<(Seq<char>, TaskView)>, i: int, task: TaskView)
    requires
        keyed(entries),
        distinct_ids(values(entries)),
        0 <= i < entries.len(),
        task.id == entries[i].1.id,
    ensures
        keyed(entries.update(i, (entries[i].0, task))),
        distinct_ids(values(entries.update(i, (entries[i].0, task)))),
        values(entries.update(i, (entries[i].0, task))) == values(entries).update(i, task),
{
    let after = entries.update(i, (entries[i].0, task));
    assert(values(after) =~= values(entries).update(i, task));
    assert forall|a: int, b: int| 0 <= a < b < after.len() implies (#[trigger] values(after)[a]).id
        != (#[trigger] values(after)[b]).id by {
        assert(values(after)[a].id == values(entries)[a].id);
    }
}

/// Inserting a task under its identifier into a well-formed map stores it as
/// `upserted` says, and keeps the map well-formed.
proof fn lemma_inserted(entries: Seq<(Seq<char>, TaskView)>, task: TaskView)
    requires
        keyed(entries),
        distinct_ids(values(entries)),
    ensures
        keyed(inserted(entries, task.id, task)),
        distinct_ids(values(inserted(entries, task.id, task))),
        values(inserted(entries, task.id, task)) == upserted(values(entries), task),
        position(values(entries), with_id(task.id)) is None ==> values(
            inserted(entries, task.id, task),
        ) == values(entries).push(task),
{
    let tasks = values(entries);
    let after = inserted(entries, task.id, task);
    crate::invariants::lemma_id_position(tasks, task.id);
    if has_key(entries, task.id) {
        let i = key_index(entries, task.id);
        assert(tasks[i].id == task.id);
        assert(values(after) =~= tasks.update(i, task));
    } else {
        assert(values(after) =~= tasks.push(task));
    }
    if position(tasks, with_id(task.id)) is None {
        assert(upserted(tasks, task) == tasks.push(task));
    }
}

/// Removing an entry keeps the map well-formed.
proof fn lemma_entry_removed(entries: Seq<(Seq<char>, TaskView)>, i: int)
    requires
        keyed(entries),
        distinct_ids(values(entries)),
        0 <= i < entries.len(),
    ensures
        keyed(entries.remove(i)),
        distinct_ids(values(entries.remove(i))),
        values(entries.remove(i)) == values(entries).remove(i),
{
    assert(values(entries.remove(i)) =~= values(entries).remove(i));
}

/// Removing an entry, the last one taking its place, keeps the map
/// well-formed.
proof fn lemma_entry_swap_removed(entries: Seq<(Seq<char>, TaskView)>, i: int)
    requires
        keyed(entries),
        distinct_ids(values(entries)),
        0 <= i < entries.len(),
    ensures
        keyed(swap_removed(entries, i)),
        distinct_ids(values(swap_removed(entries, i))),
        values(swap_removed(entries, i)) == swap_removed(values(entries), i),
{
    assert(values(swap_removed(entries, i)) =~= swap_removed(values(entries), i));
}

/// The days that the entries of a map of days stand for.
pub open spec fn days_view(entries: Seq<(Seq<char>, BucketEntries)>) -> Seq<DayView> {
    Seq::new(entries.len(), |k: int| entries[k].1.day(entries[k].0))
}

/// Every bucket among the entries keeps its representation invariant.
pub open spec fn buckets_wf(entries: Seq<(Seq<char>, BucketEntries)>) -> bool {
    forall|k: int| 0 <= k < entries.len() ==> (#[trigger] entries[k]).1.wf()
}

/// Changing one bucket in place changes one day.
proof fn lemma_bucket_changed(
    entries: Seq<(Seq<char>, BucketEntries)>,
    k: int,
    bucket: BucketEntries,
)
    requires
        buckets_wf(entries),
        0 <= k < entries.len(),
        bucket.wf(),
    ensures
        buckets_wf(entries.update(k, (entries[k].0, bucket))),
        days_view(entries.update(k, (entries[k].0, bucket))) == days_view(entries).update(
            k,
            bucket.day(entries[k].0),
        ),
{
    let after = entries.update(k, (entries[k].0, bucket));
    assert(days_view(after) =~= days_view(entries).update(k, bucket.day(entries[k].0)));
}

/// The task store: for each logical day that was ever touched, its bucket, in
/// the order in which the days were first touched.
pub struct Store {
    days: DayMap,
}

impl View for Store {
    type V = Seq<DayView>;

    closed spec fn view(&self) -> Seq<DayView> {
        days_view(day_entries(self.days))
    }
}

impl Store {
    /// Every bucket keeps its representation invariant.
    pub closed spec fn rep_ok(&self) -> bool {
        buckets_wf(day_entries(self.days))
    }

    /// The invariant of the store.
    pub open spec fn wf(&self) -> bool {
        self.rep_ok() && store_wf(self@)
    }

    /// An empty store.
    pub fn new() -> (store: Store)
        ensures
            store.wf(),
            store@ == Seq::<DayView>::empty(),
    {
        let store = Store { days: days_new() };
        store
    }

    /// The index of the day `day`.
    pub(crate) fn day_index(&self, day: &str) -> (r: Option<usize>)
        requires
            self.wf(),
        ensures
            r is Some <==> position(self@, on_day(day@)) is Some,
            r matches Some(k) ==> position(self@, on_day(day@)) == Some(k as int) && k
                < self@.len(),
    {
        let r = days_index_of(&self.days, day);
        proof {
            let entries = day_entries(self.days);
            match r {
                Some(k) => {
                    crate::invariants::lemma_day_at(self@, k as int);
                },
                None => {
                    assert forall|j: int| 0 <= j < self@.len() implies !on_day(day@)(
                        #[trigger] self@[j],
                    ) by {
                        assert(entries[j].0 != day@);
                    }
                },
            }
        }
        r
    }

    /// Makes sure that the store holds the day `day`, adding it empty at the
    /// end where it is missing, and returns its index.
    pub(crate) fn ensure_day(&mut self, day: &str) -> (k: usize)
        requires
            old(self).wf(),
        ensures
            final(self).wf(),
            final(self)@ == with_day(old(self)@, day@),
            k == slot_of(old(self)@, day@),
            k < final(self)@.len(),
    {
        match self.day_index(day) {
            Some(k) => k,
            None => {
                let k = days_len(&self.days);
                let ghost entries = day_entries(self.days);
                let bucket = DayBucket::default();
                proof {
                    crate::invariants::lemma_day_position(self@, day@);
                    assert forall|j: int| 0 <= j < entries.len() implies (
                    #[trigger] entries[j]).0 != day@ by {
                        assert(self@[j].day != day@);
                    }
                    assert(days_view(entries.push((day@, bucket.entries()))) =~= self@.push(
                        DayView::empty(day@),
                    ));
                }
                days_insert(&mut self.days, String::from_str(day), bucket);
                k
            },
        }
    }

    /// The bucket at `k`.
    pub(crate) fn bucket(&self, k: usize) -> (bucket: &DayBucket)
        requires
            self.wf(),
            k < self@.len(),
        ensures
            bucket.wf(),
            bucket.todo() == self@[k as int].todo,
            bucket.done() == self@[k as int].done,
    {
        days_at(&self.days, k)
    }

    /// Gives the waiting task `i` of day `k` the status `status` and returns a
    /// copy of it.
    pub(crate) fn set_status(&mut self, k: usize, i: usize, status: String) -> (task: Task)
        requires
            old(self).wf(),
            k < old(self)@.len(),
            i < old(self)@[k as int].todo.len(),
        ensures
            final(self).rep_ok(),
            task@ == old(self)@[k as int].todo[i as int].with_status(status@),
            final(self)@ == with_task(old(self)@, k as int, i as int, task@),
    {
        let bucket = days_at_mut(&mut self.days, k);
        let task = bucket.set_status(i, status);
        task
    }

    /// Adds one second to the waiting task `i` of day `k`.
    pub(crate) fn add_second(&mut self, k: usize, i: usize)
        requires
            old(self).wf(),
            k < old(self)@.len(),
            i < old(self)@[k as int].todo.len(),
            old(self)@[k as int].todo[i as int].time_spent < u64::MAX,
        ensures
            final(self).rep_ok(),
            final(self)@ == with_task(
                old(self)@,
                k as int,
                i as int,
                old(self)@[k as int].todo[i as int].with_second(),
            ),
    {
        let bucket = days_at_mut(&mut self.days, k);
        bucket.add_second(i);
    }

    /// Adds a task, whose identifier no waiting task of day `k` has, to those
    /// that wait there.
    pub(crate) fn push_todo(&mut self, k: usize, task: Task)
        requires
            old(self).wf(),
            k < old(self)@.len(),
            position(old(self)@[k as int].todo, with_id(task@.id)) is None,
        ensures
            final(self).rep_ok(),
            final(self)@ == old(self)@.update(
                k as int,
                DayView {
                    todo: old(self)@[k as int].todo.push(task@),
                    ..old(self)@[k as int]
                },
            ),
    {
        let bucket = days_at_mut(&mut self.days, k);
        bucket.push_todo(task);
    }

    /// Moves the waiting task `i` of day `k` to the finished ones, marked
    /// `done`, and returns a copy of it.
    pub(crate) fn finish(&mut self, k: usize, i: usize) -> (task: Task)
        requires
            old(self).wf(),
            k < old(self)@.len(),
            i < old(self)@[k as int].todo.len(),
        ensures
            final(self).rep_ok(),
            task@ == old(self)@[k as int].todo[i as int].with_status(status_done()),
            final(self)@ == old(self)@.update(
                k as int,
                DayView {
                    day: old(self)@[k as int].day,
                    todo: old(self)@[k as int].todo.remove(i as int),
                    done: upserted(old(self)@[k as int].done, task@),
                },
            ),
    {
        let bucket = days_at_mut(&mut self.days, k);
        let task = bucket.finish(i);
        task
    }

    /// Takes the waiting task `i` of day `k` out of the store.
    pub(crate) fn remove_todo(&mut self, k: usize, i: usize)
        requires
            old(self).wf(),
            k < old(self)@.len(),
            i < old(self)@[k as int].todo.len(),
        ensures
            final(self).rep_ok(),
            final(self)@ == old(self)@.update(
                k as int,
                DayView {
                    todo: swap_removed(old(self)@[k as int].todo, i as int),
                    ..old(self)@[k as int]
                },
            ),
    {
        let bucket = days_at_mut(&mut self.days, k);
        bucket.remove_todo(i);
    }
}

/// Storing a day under its key, as `with_bucket` says.
proof fn lemma_day_inserted(
    entries: Seq<(Seq<char>, BucketEntries)>,
    key: Seq<char>,
    bucket: BucketEntries,
)
    requires
        buckets_wf(entries),
        store_wf(days_view(entries)),
        bucket.wf(),
    ensures
        buckets_wf(inserted(entries, key, bucket)),
        days_view(inserted(entries, key, bucket)) == with_bucket(
            days_view(entries),
            bucket.day(key),
        ),
        store_wf(days_view(inserted(entries, key, bucket))),
{
    let days = days_view(entries);
    let after = inserted(entries, key, bucket);
    crate::invariants::lemma_day_position(days, key);
    if has_key(entries, key) {
        let k = key_index(entries, key);
        assert(days[k].day == key);
        assert(days_view(after) =~= days.update(k, bucket.day(key)));
    } else {
        let pushed = days.push(bucket.day(key));
        assert forall|a: int, b: int| 0 <= a < b < pushed.len() implies (#[trigger] pushed[a]).day
            != (#[trigger] pushed[b]).day by {
            if b < days.len() {
                assert(pushed[b] == days[b]);
            } else {
                assert(entries[a].0 != key);
            }
        }
    }
}

/// One day as it is written down: its key and its two lists of tasks.
pub struct DayRecord {
    pub day: String,
    pub todo: Vec<Task>,
    pub done: Vec<Task>,
}

impl View for DayRecord {
    type V = DayView;

    open spec fn view(&self) -> DayView {
        DayView { day: self.day@, todo: task_views(self.todo@), done: task_views(self.done@) }
    }
}

/// The values of a sequence of records.
pub open spec fn record_views(records: Seq<DayRecord>) -> Seq<DayView> {
    Seq::new(records.len(), |k: int| records[k]@)
}

/// A map that holds the tasks of `list`, each stored under its identifier, a
/// later task replacing an earlier one with the same identifier.
fn collect(list: &Vec<Task>) -> (m: TaskMap)
    ensures
        keyed(task_entries(m)),
        distinct_ids(values(task_entries(m))),
        values(task_entries(m)) == collected(task_views(list@)),
{
    let mut m = tasks_new();
    let ghost all = task_views(list@);
    let mut i: usize = 0;
    while i < list.len()
        invariant
            i <= list.len(),
            all == task_views(list@),
            keyed(task_entries(m)),
            distinct_ids(values(task_entries(m))),
            values(task_entries(m)) == collected(all.take(i as int)),
        decreases list.len() - i,
    {
        let task = list[i].clone();
        let key = task.id.clone();
        proof {
            lemma_inserted(task_entries(m), task@);
            assert(all.take(i + 1).drop_last() == all.take(i as int));
        }
        tasks_insert(&mut m, key, task);
        i = i + 1;
    }
    assert(all.take(list.len() as int) == all);
    m
}

impl Store {
    /// Copies of the tasks of `day` that wait or are worked on, or of its
    /// finished ones, in their order; none where the store does not hold the
    /// day.
    pub fn get_tasks(&self, day: &str, done: bool) -> (list: Vec<Task>)
        requires
            self.wf(),
        ensures
            task_views(list@) == (if done {
                bucket_of(self@, day@).done
            } else {
                bucket_of(self@, day@).todo
            }),
    {
        match self.day_index(day) {
            Some(k) => self.bucket(k).tasks(done),
            None => {
                let list: Vec<Task> = Vec::new();
                list
            },
        }
    }

    /// The days of the store as records, in their order.
    pub fn snapshot(&self) -> (records: Vec<DayRecord>)
        requires
            self.wf(),
        ensures
            record_views(records@) == self@,
    {
        let n = days_len(&self.days);
        let mut records: Vec<DayRecord> = Vec::new();
        let mut k: usize = 0;
        while k < n
            invariant
                k <= n,
                n == self@.len(),
                self.wf(),
                records@.len() == k,
                forall|j: int| 0 <= j < k ==> (#[trigger] records@[j])@ == self@[j],
            decreases n - k,
        {
            let key = days_key_at(&self.days, k).unwrap();
            let bucket = days_at(&self.days, k);
            let record = DayRecord {
                day: key.clone(),
                todo: bucket.tasks(false),
                done: bucket.tasks(true),
            };
            records.push(record);
            k = k + 1;
        }
        records
    }

    /// The store that holds the recorded days, loaded one by one: each task is
    /// stored under its identifier and each day under its key, a later one
    /// replacing an earlier one with the same identifier or key.
    pub fn restore(records: &Vec<DayRecord>) -> (store: Store)
        ensures
            store.wf(),
            store@ == restored(record_views(records@)),
    {
        let mut days = days_new();
        let ghost all = record_views(records@);
        let mut k: usize = 0;
        while k < records.len()
            invariant
                k <= records.len(),
                all == record_views(records@),
                buckets_wf(day_entries(days)),
                store_wf(days_view(day_entries(days))),
                days_view(day_entries(days)) == restored(all.take(k as int)),
            decreases records.len() - k,
        {
            let record = &records[k];
            let bucket = DayBucket { todo: collect(&record.todo), done: collect(&record.done) };
            proof {
                lemma_day_inserted(day_entries(days), record.day@, bucket.entries());
                assert(all.take(k + 1).drop_last() == all.take(k as int));
            }
            days_insert(&mut days, record.day.clone(), bucket);
            k = k + 1;
        }
        assert(all.take(records.len() as int) == all);
        Store { days }
    }
}

/// The fix at startup. Nobody works on a task when the store has just been
/// loaded, so every task that it marks `doing` is put to rest, on every day:
/// a waiting one waits again, a finished one is finished.
pub fn clear_active_startup(store: &mut Store)
    requires
        old(store).wf(),
    ensures
        final(store).wf(),
        final(store)@ == calmed(old(store)@),
{
    let n = days_len(&store.days);
    let ghost before = day_entries(store.days);
    let mut k: usize = 0;
    while k < n
        invariant
            k <= n,
            n == before.len(),
            before == day_entries(old(store).days),
            buckets_wf(before),
            day_entries(store.days).len() == n,
            buckets_wf(day_entries(store.days)),
            forall|j: int|
                0 <= j < k ==> (#[trigger] days_view(day_entries(store.days))[j]) == days_view(
                    before,
                )[j].calmed(),
            forall|j: int| k <= j < n ==> (#[trigger] day_entries(store.days)[j]) == before[j],
        decreases n - k,
    {
        let ghost entries = day_entries(store.days);
        let bucket = days_at_mut(&mut store.days, k);
        bucket.calm();
        proof {
            lemma_bucket_changed(entries, k as int, day_entries(store.days)[k as int].1);
        }
        k = k + 1;
    }
}

} // verus!
