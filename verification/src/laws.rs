//! What holds of the engine whatever is done with it.

use crate::invariants::{
    lemma_activated_at, lemma_cleared, lemma_created, lemma_id_position, lemma_title_position_kept,
    lemma_with_task,
};
use crate::model::{
    bucket_of, calmed, collected, distinct_ids, distinct_titles, find_task, new_task, restored,
    slot_of, store_wf, titled, titles_unique, with_day, with_id, with_task, DayView, EngineView,
    TaskError,
};
use crate::search::{has, position};
use crate::task::{lemma_statuses_differ, status_doing, status_done, status_todo, TaskView};
use crate::text::blank;
use vstd::prelude::*;

verus! {

/// One call of `create`.
pub struct CreateRequest {
    pub day: Seq<char>,
    pub title: Seq<char>,
    pub state_id: Option<Seq<char>>,
    pub id: Seq<char>,
}

/// The state after a sequence of calls of `create`.
pub open spec fn created_all(s: EngineView, requests: Seq<CreateRequest>) -> EngineView
    decreases requests.len(),
{
    if requests.len() == 0 {
        s
    } else {
        let r = requests.last();
        created_all(s, requests.drop_last()).created(r.day, r.title, r.state_id, r.id)
    }
}

/// A change of a day that keeps the titles of its tasks, place by place,
/// keeps them unique.
proof fn lemma_same_titles(before: DayView, after: DayView)
    requires
        before.titles_unique(),
        before.todo.len() == after.todo.len(),
        before.done.len() == after.done.len(),
        forall|i: int|
            0 <= i < before.todo.len() ==> (#[trigger] before.todo[i]).title == (
            #[trigger] after.todo[i]).title,
        forall|i: int|
            0 <= i < before.done.len() ==> (#[trigger] before.done[i]).title == (
            #[trigger] after.done[i]).title,
    ensures
        after.titles_unique(),
{
    let a = before.todo + before.done;
    let b = after.todo + after.done;
    assert forall|i: int, j: int| 0 <= i < j < b.len() implies (#[trigger] b[i]).title != (
    #[trigger] b[j]).title by {
        assert(a[i].title == b[i].title) by {
            if i < before.todo.len() {
                assert(a[i] == before.todo[i]);
            } else {
                assert(a[i] == before.done[i - before.todo.len()]);
            }
        }
        assert(a[j].title == b[j].title) by {
            if j < before.todo.len() {
                assert(a[j] == before.todo[j]);
            } else {
                assert(a[j] == before.done[j - before.todo.len()]);
            }
        }
    }
}

/// Changing a waiting task without changing its title keeps titles unique.
proof fn lemma_with_task_titles(days: Seq<DayView>, k: int, i: int, task: TaskView)
    requires
        titles_unique(days),
        0 <= k < days.len(),
        0 <= i < days[k].todo.len(),
        task.title == days[k].todo[i].title,
    ensures
        titles_unique(with_task(days, k, i, task)),
{
    let after = with_task(days, k, i, task);
    assert forall|j: int| 0 <= j < after.len() implies (#[trigger] after[j]).titles_unique() by {
        if j == k {
            lemma_same_titles(days[k], after[k]);
        } else {
            assert(after[j] == days[j]);
        }
    }
}

/// `create` never gives a day two tasks with one title: where each day of a
/// state holds at most one task per title, waiting or finished, the same
/// holds after `create`, whether it succeeded or not.
pub proof fn lemma_create_keeps_titles_unique(
    s: EngineView,
    day: Seq<char>,
    title: Seq<char>,
    state_id: Option<Seq<char>>,
    id: Seq<char>,
)
    requires
        s.wf(),
        titles_unique(s.days),
    ensures
        titles_unique(s.created(day, title, state_id, id).days),
{
    let days = with_day(s.days, day);
    let k = slot_of(s.days, day);
    let after = s.created(day, title, state_id, id).days;
    if s.create_error(day, title, id) is None {
        let task = new_task(day, title, state_id, id);
        let bucket = days[k];
        assert forall|j: int| 0 <= j < after.len() implies (#[trigger] after[j]).titles_unique() by {
            if j == k {
                let a = bucket.todo + bucket.done;
                let b = after[k].todo + after[k].done;
                let n = bucket.todo.len() as int;
                assert forall|x: int, y: int| 0 <= x < y < b.len() implies (#[trigger] b[x]).title
                    != (#[trigger] b[y]).title by {
                    if x < n && y < n {
                        assert(b[x] == a[x] && b[y] == a[y]);
                    } else if x < n && y == n {
                        assert(b[x] == bucket.todo[x] && b[y] == task);
                    } else if x < n {
                        assert(b[x] == a[x] && b[y] == a[y - 1]);
                    } else if x == n {
                        assert(b[x] == task && b[y] == bucket.done[y - n - 1]);
                    } else {
                        assert(b[x] == a[x - 1] && b[y] == a[y - 1]);
                    }
                }
            } else {
                assert(after[j] == days[j]);
            }
        }
    }
}

/// Whatever sequence of tasks is created in an empty engine, each day holds at
/// most one task per title, waiting or finished.
pub proof fn lemma_creates_keep_titles_unique(requests: Seq<CreateRequest>)
    ensures
        created_all(EngineView::empty(), requests).wf(),
        titles_unique(created_all(EngineView::empty(), requests).days),
    decreases requests.len(),
{
    if requests.len() > 0 {
        let r = requests.last();
        let before = created_all(EngineView::empty(), requests.drop_last());
        lemma_creates_keep_titles_unique(requests.drop_last());
        lemma_created(before, r.day, r.title, r.state_id, r.id);
        lemma_create_keeps_titles_unique(before, r.day, r.title, r.state_id, r.id);
    }
}

/// Whether one of `tasks` has the title `title`.
pub open spec fn title_among(tasks: Seq<TaskView>, title: Seq<char>) -> bool {
    exists|i: int| 0 <= i < tasks.len() && (#[trigger] tasks[i]).title == title
}

/// `create` with a title that is not blank and an identifier that is new to
/// the day is refused exactly where the day already holds a task with this
/// title, waiting or finished, and then for the duplicate title, the day
/// staying as it was. Otherwise it succeeds: the new task waits, behind the
/// tasks that waited before, and nothing else changes on that day. The active
/// task stays either way.
pub proof fn lemma_create_refuses_duplicates(
    s: EngineView,
    day: Seq<char>,
    title: Seq<char>,
    state_id: Option<Seq<char>>,
    id: Seq<char>,
)
    requires
        s.wf(),
        !blank(title),
        !bucket_of(s.days, day).has_id(id),
    ensures
        ({
            let bucket = bucket_of(s.days, day);
            let after = s.created(day, title, state_id, id);
            let duplicate = title_among(bucket.todo, title) || title_among(bucket.done, title);
            &&& s.create_error(day, title, id) == (if duplicate {
                Some(TaskError::DuplicateTitle)
            } else {
                None::<TaskError>
            })
            &&& duplicate ==> bucket_of(after.days, day) == bucket
            &&& !duplicate ==> bucket_of(after.days, day) == (DayView {
                todo: bucket.todo.push(new_task(day, title, state_id, id)),
                ..bucket
            })
            &&& after.active == s.active
        }),
{
    let bucket = bucket_of(s.days, day);
    let after = s.created(day, title, state_id, id);
    lemma_titled(bucket.todo, title);
    lemma_titled(bucket.done, title);
    crate::invariants::lemma_with_day(s.days, day);
    if s.create_error(day, title, id) is None {
        lemma_created(s, day, title, state_id, id);
        crate::invariants::lemma_day_position_kept(with_day(s.days, day), after.days, day);
    }
}

/// One of `tasks` has the title `title` exactly where the property `titled`
/// holds of one of them.
proof fn lemma_titled(tasks: Seq<TaskView>, title: Seq<char>)
    ensures
        title_among(tasks, title) <==> has(tasks, titled(title)),
{
    if title_among(tasks, title) {
        let i = choose|i: int| 0 <= i < tasks.len() && (#[trigger] tasks[i]).title == title;
        assert(titled(title)(tasks[i]));
    }
}

/// The fix at startup keeps the days, their order and the places of their
/// tasks, and leaves no task marked `doing`: a waiting task that was marked
/// so waits again, and is otherwise the task it was; every other waiting task
/// is the task it was. Where no finished task was marked `doing`, as in every
/// store that an engine has kept, the finished tasks are all as they were.
/// The days so fixed, with no task active, are a state of the engine.
pub proof fn lemma_startup_fix(days: Seq<DayView>)
    requires
        store_wf(days),
    ensures
        calmed(days).len() == days.len(),
        forall|k: int|
            0 <= k < days.len() ==> {
                &&& (#[trigger] calmed(days)[k]).day == days[k].day
                &&& calmed(days)[k].todo.len() == days[k].todo.len()
                &&& calmed(days)[k].done.len() == days[k].done.len()
            },
        forall|k: int, i: int|
            0 <= k < days.len() && 0 <= i < days[k].todo.len() ==> {
                &&& (#[trigger] calmed(days)[k].todo[i]).status != status_doing()
                &&& calmed(days)[k].todo[i] == (if days[k].todo[i].status == status_doing() {
                    days[k].todo[i].with_status(status_todo())
                } else {
                    days[k].todo[i]
                })
            },
        forall|k: int, i: int|
            0 <= k < days.len() && 0 <= i < days[k].done.len() ==> (
            #[trigger] calmed(days)[k].done[i]).status != status_doing(),
        (forall|k: int, i: int|
            0 <= k < days.len() && 0 <= i < days[k].done.len() ==> (
            #[trigger] days[k].done[i]).status != status_doing()) ==> forall|k: int|
            0 <= k < days.len() ==> (#[trigger] calmed(days)[k]).done == days[k].done,
        (EngineView { days: calmed(days), active: None }).wf(),
{
    lemma_statuses_differ();
    let after = calmed(days);
    if forall|k: int, i: int|
        0 <= k < days.len() && 0 <= i < days[k].done.len() ==> (
        #[trigger] days[k].done[i]).status != status_doing() {
        assert forall|k: int| 0 <= k < days.len() implies (#[trigger] after[k]).done
            == days[k].done by {
            assert(after[k].done =~= days[k].done);
        }
    }
    assert forall|k: int| 0 <= k < after.len() implies (#[trigger] after[k]).wf() by {
        assert(days[k].wf());
    }
}

/// Giving up the active task keeps titles unique.
proof fn lemma_cleared_titles(s: EngineView)
    requires
        s.wf(),
        titles_unique(s.days),
    ensures
        titles_unique(s.cleared().days),
{
    match s.active_slot() {
        None => {},
        Some((k, i)) => {
            lemma_with_task_titles(s.days, k, i, s.days[k].todo[i].with_status(status_todo()));
        },
    }
}

/// Activating, deactivating and ticking change no title: where each day holds
/// at most one task per title, it still does afterwards.
pub proof fn lemma_status_changes_keep_titles_unique(
    s: EngineView,
    day: Seq<char>,
    title: Seq<char>,
)
    requires
        s.wf(),
        titles_unique(s.days),
    ensures
        titles_unique(s.activated(day, title).days),
        titles_unique(s.deactivated(day, title).days),
        titles_unique(s.cleared().days),
        titles_unique(s.ticked(day).days),
{
    lemma_cleared_titles(s);
    let with = s.with_day(day);
    let k = slot_of(s.days, day);
    match (s.activate_result(day, title), position(bucket_of(s.days, day).todo, titled(title))) {
        (Ok(_), Some(i)) => {
            let base = if with.is_active(with.days[k].day, with.days[k].todo[i].id) {
                with.days
            } else {
                with.released()
            };
            lemma_with_task_titles(base, k, i, base[k].todo[i].with_status(status_doing()));
        },
        _ => {},
    }
    match s.tick_slot(day) {
        None => {},
        Some((tk, ti)) => {
            let a = s.active->Some_0;
            lemma_id_position(s.days[tk].todo, a.task.id);
            lemma_with_task_titles(s.days, tk, ti, s.days[tk].todo[ti].with_second());
        },
    }
}

/// Tasks that are taken, each from a place of its own, out of tasks with
/// unique titles have unique titles.
proof fn lemma_titles_injected(a: Seq<TaskView>, b: Seq<TaskView>, f: spec_fn(int) -> int)
    requires
        distinct_titles(a),
        forall|x: int|
            0 <= x < b.len() ==> 0 <= #[trigger] f(x) < a.len() && a[f(x)].title == b[x].title,
        forall|x: int, y: int| 0 <= x < y < b.len() ==> #[trigger] f(x) != #[trigger] f(y),
    ensures
        distinct_titles(b),
{
    assert forall|x: int, y: int| 0 <= x < y < b.len() implies (#[trigger] b[x]).title != (
    #[trigger] b[y]).title by {
        let fx = f(x);
        let fy = f(y);
        if fx < fy {
            assert(a[fx].title != a[fy].title);
        } else {
            assert(a[fy].title != a[fx].title);
        }
    }
}

/// Finishing and deleting tasks keeps titles unique: where each day holds at
/// most one task per title, waiting or finished, it still does afterwards.
pub proof fn lemma_removals_keep_titles_unique(s: EngineView, day: Seq<char>, title: Seq<char>)
    requires
        s.wf(),
        titles_unique(s.days),
    ensures
        titles_unique(s.completed(day, title).days),
        titles_unique(s.deleted(day, title).days),
{
    let days = with_day(s.days, day);
    let k = slot_of(s.days, day);
    match position(days[k].todo, titled(title)) {
        None => {},
        Some(i) => {
            let bucket = days[k];
            let n = bucket.todo.len() as int;
            let a = bucket.todo + bucket.done;
            // finishing
            let task = bucket.todo[i].with_status(status_done());
            let finished = s.completed(day, title).days;
            let b = finished[k].todo + finished[k].done;
            let j = position(bucket.done, with_id(task.id));
            let f = |x: int|
                if x < n - 1 {
                    if x < i {
                        x
                    } else {
                        x + 1
                    }
                } else if j == Some(x - (n - 1)) || x - (n - 1) == bucket.done.len() {
                    i
                } else {
                    x + 1
                };
            lemma_titles_injected(a, b, f);
            // deleting
            let deleted = s.deleted(day, title).days;
            let c = deleted[k].todo + deleted[k].done;
            let g = |x: int|
                if x == i && i < n - 1 {
                    n - 1
                } else if x < n - 1 {
                    x
                } else {
                    x + 1
                };
            lemma_titles_injected(a, c, g);
        },
    }
}

/// At most one task in the whole store is marked `doing`; it waits, and it is
/// the active task. Where no task is active, none is marked `doing`.
pub proof fn lemma_one_task_doing(s: EngineView)
    requires
        s.wf(),
    ensures
        forall|k: int, i: int, k2: int, i2: int|
            0 <= k < s.days.len() && 0 <= i < s.days[k].todo.len() && 0 <= k2 < s.days.len() && 0
                <= i2 < s.days[k2].todo.len() && (#[trigger] s.days[k].todo[i]).status
                == status_doing() && (#[trigger] s.days[k2].todo[i2]).status == status_doing()
                ==> k == k2 && i == i2,
        forall|k: int, i: int|
            0 <= k < s.days.len() && 0 <= i < s.days[k].todo.len() && (
            #[trigger] s.days[k].todo[i]).status == status_doing() ==> s.active is Some
                && s.active->Some_0.task.id == s.days[k].todo[i].id && s.active->Some_0.day
                == s.days[k].day,
        forall|k: int, i: int|
            0 <= k < s.days.len() && 0 <= i < s.days[k].done.len() ==> (
            #[trigger] s.days[k].done[i]).status != status_doing(),
        s.active is Some ==> exists|k: int, i: int|
            0 <= k < s.days.len() && 0 <= i < s.days[k].todo.len() && (
            #[trigger] s.days[k].todo[i]).status == status_doing(),
{
    if s.active is Some {
        let (k, i) = s.active_slot()->Some_0;
    }
}

/// Activating one task and then another: the first waits again, the second is
/// marked `doing` and is the active task.
pub proof fn lemma_activate_switches(
    s: EngineView,
    day_a: Seq<char>,
    a: Seq<char>,
    day_b: Seq<char>,
    b: Seq<char>,
)
    requires
        s.wf(),
        s.activate_result(day_a, a) is Ok,
        a != b || day_a != day_b,
        position(bucket_of(s.activated(day_a, a).days, day_b).todo, titled(b)) is Some,
    ensures
        ({
            let first = s.activate_result(day_a, a)->Ok_0;
            let s1 = s.activated(day_a, a);
            let s2 = s1.activated(day_b, b);
            &&& s1.activate_result(day_b, b) matches Ok(second)
            &&& s2.active == Some(crate::model::ActiveView { day: day_b, task: second })
            &&& find_task(s2.days, day_b, second.id) matches Some((k, i))
            &&& s2.days[k].todo[i] == second
            &&& second.title == b
            &&& second.status == status_doing()
            &&& find_task(s2.days, day_a, first.id) matches Some((k0, i0))
            &&& s2.days[k0].todo[i0] == first.with_status(status_todo())
            &&& first.title == a
        }),
{
    let first = s.activate_result(day_a, a)->Ok_0;
    let s1 = s.activated(day_a, a);
    let w = s.with_day(day_a);
    let ka = slot_of(s.days, day_a);
    let ia = position(bucket_of(s.days, day_a).todo, titled(a))->Some_0;
    lemma_activated_at(w, ka, ia);
    // the second activation
    let w1 = s1.with_day(day_b);
    let kb = slot_of(s1.days, day_b);
    let ib = position(bucket_of(s1.days, day_b).todo, titled(b))->Some_0;
    let second = s1.activate_result(day_b, b)->Ok_0;
    let s2 = s1.activated(day_b, b);
    lemma_activated_at(w1, kb, ib);
    lemma_cleared(w1);
    let base = w1.released();
    lemma_with_task(base, kb, ib, second);
    // where the first task stands now
    if ka == kb {
        assert(s2.days[ka].todo[ia] == base[ka].todo[ia]);
    } else {
        assert(s2.days[ka] == base[ka]);
    }
}

/// Activating the task that was activated a moment ago is refused as
/// `AlreadyActive`, and changes nothing.
pub proof fn lemma_activate_twice(s: EngineView, day: Seq<char>, title: Seq<char>)
    requires
        s.wf(),
        s.activate_result(day, title) is Ok,
    ensures
        s.activated(day, title).activate_result(day, title) == Err::<TaskView, TaskError>(
            TaskError::AlreadyActive,
        ),
        s.activated(day, title).activated(day, title) == s.activated(day, title),
{
    let w = s.with_day(day);
    let k = slot_of(s.days, day);
    let i = position(bucket_of(s.days, day).todo, titled(title))->Some_0;
    let s1 = s.activated(day, title);
    lemma_activated_at(w, k, i);
    let base = if w.is_active(w.days[k].day, w.days[k].todo[i].id) {
        w.days
    } else {
        w.released()
    };
    assert(base == w.days || base == w.cleared().days);
    lemma_title_position_kept(w.days[k].todo, s1.days[k].todo, title);
}

/// While a task of the day `today` is the active one, every tick adds one
/// second to the time spent on it and changes nothing else: after `n` ticks
/// the time has grown by exactly `n`, as long as the counter can hold it.
pub proof fn lemma_ticks_accrue(s: EngineView, today: Seq<char>, n: nat)
    requires
        s.wf(),
        s.active is Some,
        s.active->Some_0.day == today,
        s.days[s.active_slot()->Some_0.0].todo[s.active_slot()->Some_0.1].time_spent + n
            <= u64::MAX,
    ensures
        ({
            let (k, i) = s.active_slot()->Some_0;
            let task = s.days[k].todo[i];
            s.ticked_times(today, n) == (EngineView {
                days: with_task(
                    s.days,
                    k,
                    i,
                    TaskView { time_spent: task.time_spent + n, ..task },
                ),
                active: s.active,
            })
        }),
    decreases n,
{
    let (k, i) = s.active_slot()->Some_0;
    let task = s.days[k].todo[i];
    if n == 0 {
        assert(with_task(s.days, k, i, task) =~= s.days) by {
            assert(s.days[k].todo.update(i, task) =~= s.days[k].todo);
        }
    } else {
        let m = (n - 1) as nat;
        lemma_ticks_accrue(s, today, m);
        let before = s.ticked_times(today, m);
        let grown = TaskView { time_spent: task.time_spent + m, ..task };
        lemma_with_task(s.days, k, i, grown);
        let after = before.ticked(today);
        assert(after.days =~= with_task(
            s.days,
            k,
            i,
            TaskView { time_spent: task.time_spent + n, ..task },
        )) by {
            assert(after.days[k].todo =~= s.days[k].todo.update(
                i,
                TaskView { time_spent: task.time_spent + n, ..task },
            ));
        }
    }
}

/// A tick changes nothing but the time spent on one waiting task that is
/// marked `doing`. So where no task is active, and from the moment the active
/// task is deactivated, given up or finished, ticks change nothing at all.
pub proof fn lemma_ticks_stop(s: EngineView, today: Seq<char>, n: nat)
    requires
        s.wf(),
    ensures
        s.tick_slot(today) matches Some((k, i)) ==> s.days[k].todo[i].status == status_doing(),
        s.active is None ==> s.ticked_times(today, n) == s,
        s.cleared().ticked_times(today, n) == s.cleared(),
        forall|day: Seq<char>, title: Seq<char>|
            s.deactivate_error(day, title) is None ==> #[trigger] s.deactivated(
                day,
                title,
            ).ticked_times(today, n) == s.deactivated(day, title),
    decreases n,
{
    if n > 0 {
        lemma_ticks_stop(s, today, (n - 1) as nat);
    }
    if s.active is None {
        lemma_idle_ticks(s, today, n);
    }
}

/// The time spent on a task grows by ticks only, one second at a time, and
/// only while the task is marked `doing`: a tick adds a second to the task at
/// its slot and leaves every other time as it is, and activating,
/// deactivating or giving up a task changes no time at all.
pub proof fn lemma_time_grows_by_ticks_only(
    s: EngineView,
    day: Seq<char>,
    title: Seq<char>,
    today: Seq<char>,
)
    requires
        s.wf(),
    ensures
        s.ticked(today).days.len() == s.days.len(),
        forall|k: int, i: int|
            0 <= k < s.days.len() && 0 <= i < s.days[k].todo.len() ==> {
                &&& i < s.ticked(today).days[k].todo.len()
                &&& (#[trigger] s.ticked(today).days[k].todo[i]).time_spent
                    == s.days[k].todo[i].time_spent + (if s.tick_slot(today) == Some((k, i)) {
                    1nat
                } else {
                    0nat
                })
                &&& s.tick_slot(today) == Some((k, i)) ==> s.days[k].todo[i].status
                    == status_doing()
            },
        forall|k: int, i: int|
            0 <= k < s.days.len() && 0 <= i < s.days[k].todo.len() ==> {
                &&& k < s.activated(day, title).days.len()
                &&& i < s.activated(day, title).days[k].todo.len()
                &&& (#[trigger] s.activated(day, title).days[k].todo[i]).time_spent
                    == s.days[k].todo[i].time_spent
            },
        forall|k: int, i: int|
            0 <= k < s.days.len() && 0 <= i < s.days[k].todo.len() ==> {
                &&& k < s.deactivated(day, title).days.len()
                &&& i < s.deactivated(day, title).days[k].todo.len()
                &&& (#[trigger] s.deactivated(day, title).days[k].todo[i]).time_spent
                    == s.days[k].todo[i].time_spent
            },
        forall|k: int, i: int|
            0 <= k < s.days.len() && 0 <= i < s.days[k].todo.len() ==> {
                &&& i < s.cleared().days[k].todo.len()
                &&& (#[trigger] s.cleared().days[k].todo[i]).time_spent
                    == s.days[k].todo[i].time_spent
            },
{
    // ticks
    match s.tick_slot(today) {
        None => {},
        Some((tk, ti)) => {
            let a = s.active->Some_0;
            lemma_id_position(s.days[tk].todo, a.task.id);
        },
    }
    // activation
    let with = s.with_day(day);
    let slot = slot_of(s.days, day);
    assert forall|k: int, i: int|
        0 <= k < s.days.len() && 0 <= i < s.days[k].todo.len() implies {
        &&& k < s.activated(day, title).days.len()
        &&& i < s.activated(day, title).days[k].todo.len()
        &&& (#[trigger] s.activated(day, title).days[k].todo[i]).time_spent
            == s.days[k].todo[i].time_spent
    } by {
        match (
            s.activate_result(day, title),
            position(bucket_of(s.days, day).todo, titled(title)),
        ) {
            (Ok(_), Some(j)) => {
                let base = if with.is_active(with.days[slot].day, with.days[slot].todo[j].id) {
                    with.days
                } else {
                    with.released()
                };
                assert(base == with.days || base == with.cleared().days);
            },
            _ => {},
        }
    }
}

/// Without an active task ticks change nothing.
proof fn lemma_idle_ticks(s: EngineView, today: Seq<char>, n: nat)
    requires
        s.active is None,
    ensures
        s.ticked_times(today, n) == s,
    decreases n,
{
    if n > 0 {
        lemma_idle_ticks(s, today, (n - 1) as nat);
    }
}

/// Finishing the active task leaves no active task, so ticks change nothing
/// from then on; the task stands among the finished ones, marked `done`.
pub proof fn lemma_complete_stops_work(s: EngineView, day: Seq<char>, title: Seq<char>, n: nat)
    requires
        s.wf(),
        s.complete_result(day, title) matches Ok(task) && s.is_active(day, task.id),
    ensures
        s.completed(day, title).active is None,
        s.completed(day, title).ticked_times(day, n) == s.completed(day, title),
        has(
            bucket_of(s.completed(day, title).days, day).done,
            |t: TaskView| t == s.complete_result(day, title)->Ok_0,
        ),
        position(
            bucket_of(s.completed(day, title).days, day).todo,
            with_id(s.complete_result(day, title)->Ok_0.id),
        ) is None,
{
    let with = s.with_day(day);
    let days = with.days;
    let k = slot_of(s.days, day);
    let i = position(days[k].todo, titled(title))->Some_0;
    let task = days[k].todo[i].with_status(status_done());
    let after = s.completed(day, title);
    lemma_idle_ticks(after, day, n);
    crate::invariants::lemma_upserted(days[k].done, task);
    crate::invariants::lemma_day_replaced(days, k, after.days[k]);
    let done = after.days[k].done;
    let j = match position(days[k].done, with_id(task.id)) {
        Some(j) => j,
        None => days[k].done.len() as int,
    };
    assert(done[j] == task);
}

/// Storing tasks with unique identifiers one by one gives the same tasks in
/// the same order.
pub proof fn lemma_collected(tasks: Seq<TaskView>)
    requires
        distinct_ids(tasks),
    ensures
        collected(tasks) == tasks,
    decreases tasks.len(),
{
    if tasks.len() == 0 {
        assert(tasks =~= Seq::<TaskView>::empty());
    } else {
        let front = tasks.drop_last();
        lemma_collected(front);
    }
}

/// Writing a store down and loading it again gives the same store: the same
/// days in the same order, and on each day the same tasks in the same order,
/// with their identifiers, titles, statuses and times.
pub proof fn lemma_restore_round_trip(days: Seq<DayView>)
    requires
        store_wf(days),
    ensures
        restored(days) == days,
    decreases days.len(),
{
    if days.len() == 0 {
        assert(days =~= Seq::<DayView>::empty());
    } else {
        let front = days.drop_last();
        let last = days.last();
        lemma_restore_round_trip(front);
        lemma_collected(last.todo);
        lemma_collected(last.done);
    }
}

} // verus!
