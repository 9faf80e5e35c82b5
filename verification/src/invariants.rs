//! Every operation of the engine keeps its invariant.

use crate::model::{
    bucket_of, distinct_days, distinct_ids, find_task, new_task, on_day, slot_of, store_wf,
    swap_removed, titled, upserted, with_day, with_id, with_task, DayView, EngineView,
};
use crate::search::{is_first, lemma_position, position};
use crate::task::{lemma_statuses_differ, status_doing, status_done, status_todo, TaskView};
use vstd::prelude::*;

verus! {

/// Where a day stands, given that keys are unique.
pub proof fn lemma_day_position(days: Seq<DayView>, day: Seq<char>)
    ensures
        match position(days, on_day(day)) {
            Some(k) => 0 <= k < days.len() && days[k].day == day,
            None => forall|j: int| 0 <= j < days.len() ==> (#[trigger] days[j]).day != day,
        },
{
    lemma_position(days, on_day(day));
    if position(days, on_day(day)) is None {
        assert forall|j: int| 0 <= j < days.len() implies (#[trigger] days[j]).day != day by {
            assert(!on_day(day)(days[j]));
        }
    }
}

/// With unique keys, the day at `k` is found at `k`.
pub proof fn lemma_day_at(days: Seq<DayView>, k: int)
    requires
        distinct_days(days),
        0 <= k < days.len(),
    ensures
        position(days, on_day(days[k].day)) == Some(k),
{
    let p = on_day(days[k].day);
    assert(is_first(days, p, k)) by {
        assert forall|j: int| 0 <= j < k implies !p(#[trigger] days[j]) by {
            assert(days[j].day != days[k].day);
        }
    }
}

/// Where a task stands among tasks.
pub proof fn lemma_id_position(tasks: Seq<TaskView>, id: Seq<char>)
    ensures
        match position(tasks, with_id(id)) {
            Some(i) => 0 <= i < tasks.len() && tasks[i].id == id,
            None => forall|j: int| 0 <= j < tasks.len() ==> (#[trigger] tasks[j]).id != id,
        },
{
    lemma_position(tasks, with_id(id));
    if position(tasks, with_id(id)) is None {
        assert forall|j: int| 0 <= j < tasks.len() implies (#[trigger] tasks[j]).id != id by {
            assert(!with_id(id)(tasks[j]));
        }
    }
}

/// With unique identifiers, the task at `i` is found at `i`.
pub proof fn lemma_id_at(tasks: Seq<TaskView>, i: int)
    requires
        distinct_ids(tasks),
        0 <= i < tasks.len(),
    ensures
        position(tasks, with_id(tasks[i].id)) == Some(i),
{
    let p = with_id(tasks[i].id);
    assert(is_first(tasks, p, i)) by {
        assert forall|j: int| 0 <= j < i implies !p(#[trigger] tasks[j]) by {
            assert(tasks[j].id != tasks[i].id);
        }
    }
}

/// Where the first task with a title stands.
pub proof fn lemma_title_position(tasks: Seq<TaskView>, title: Seq<char>)
    ensures
        match position(tasks, titled(title)) {
            Some(i) => 0 <= i < tasks.len() && tasks[i].title == title && forall|j: int|
                0 <= j < i ==> (#[trigger] tasks[j]).title != title,
            None => forall|j: int| 0 <= j < tasks.len() ==> (#[trigger] tasks[j]).title != title,
        },
{
    lemma_position(tasks, titled(title));
    match position(tasks, titled(title)) {
        Some(i) => {
            assert forall|j: int| 0 <= j < i implies (#[trigger] tasks[j]).title != title by {
                assert(!titled(title)(tasks[j]));
            }
        },
        None => {
            assert forall|j: int| 0 <= j < tasks.len() implies (#[trigger] tasks[j]).title
                != title by {
                assert(!titled(title)(tasks[j]));
            }
        },
    }
}

/// A change that keeps every title keeps the place of the first task with a
/// given title.
pub proof fn lemma_title_position_kept(a: Seq<TaskView>, b: Seq<TaskView>, title: Seq<char>)
    requires
        a.len() == b.len(),
        forall|j: int| 0 <= j < a.len() ==> (#[trigger] a[j]).title == (#[trigger] b[j]).title,
    ensures
        position(a, titled(title)) == position(b, titled(title)),
{
    lemma_title_position(a, title);
    match position(a, titled(title)) {
        Some(i) => {
            assert(is_first(b, titled(title), i)) by {
                assert forall|j: int| 0 <= j < i implies !titled(title)(#[trigger] b[j]) by {
                    assert(a[j].title == b[j].title);
                }
            }
        },
        None => {
            assert forall|j: int| 0 <= j < b.len() implies !titled(title)(#[trigger] b[j]) by {
                assert(a[j].title == b[j].title);
            }
        },
    }
}

/// A change that keeps every identifier keeps the place of each task.
pub proof fn lemma_id_position_kept(a: Seq<TaskView>, b: Seq<TaskView>, id: Seq<char>)
    requires
        a.len() == b.len(),
        forall|j: int| 0 <= j < a.len() ==> (#[trigger] a[j]).id == (#[trigger] b[j]).id,
    ensures
        position(a, with_id(id)) == position(b, with_id(id)),
{
    lemma_position(a, with_id(id));
    match position(a, with_id(id)) {
        Some(i) => {
            assert(is_first(b, with_id(id), i)) by {
                assert forall|j: int| 0 <= j < i implies !with_id(id)(#[trigger] b[j]) by {
                    assert(a[j].id == b[j].id);
                }
            }
        },
        None => {
            assert forall|j: int| 0 <= j < b.len() implies !with_id(id)(#[trigger] b[j]) by {
                assert(a[j].id == b[j].id);
            }
        },
    }
}

/// A change that keeps every key keeps the place of each day.
pub proof fn lemma_day_position_kept(a: Seq<DayView>, b: Seq<DayView>, day: Seq<char>)
    requires
        a.len() == b.len(),
        forall|j: int| 0 <= j < a.len() ==> (#[trigger] a[j]).day == (#[trigger] b[j]).day,
    ensures
        position(a, on_day(day)) == position(b, on_day(day)),
{
    lemma_position(a, on_day(day));
    match position(a, on_day(day)) {
        Some(k) => {
            assert(is_first(b, on_day(day), k)) by {
                assert forall|j: int| 0 <= j < k implies !on_day(day)(#[trigger] b[j]) by {
                    assert(a[j].day == b[j].day);
                }
            }
        },
        None => {
            assert forall|j: int| 0 <= j < b.len() implies !on_day(day)(#[trigger] b[j]) by {
                assert(a[j].day == b[j].day);
            }
        },
    }
}

/// What `with_day` gives: the same days with `day` at `slot_of`, holding what
/// `bucket_of` says; the days that were there stand where they stood.
pub proof fn lemma_with_day(days: Seq<DayView>, day: Seq<char>)
    requires
        store_wf(days),
    ensures
        store_wf(with_day(days, day)),
        0 <= slot_of(days, day) < with_day(days, day).len(),
        position(with_day(days, day), on_day(day)) == Some(slot_of(days, day)),
        with_day(days, day)[slot_of(days, day)] == bucket_of(days, day),
        bucket_of(days, day).day == day,
        days.len() <= with_day(days, day).len(),
        forall|k: int| 0 <= k < days.len() ==> (#[trigger] with_day(days, day)[k]) == days[k],
        with_day(with_day(days, day), day) == with_day(days, day),
        slot_of(with_day(days, day), day) == slot_of(days, day),
        bucket_of(with_day(days, day), day) == bucket_of(days, day),
{
    lemma_day_position(days, day);
    let after = with_day(days, day);
    if position(days, on_day(day)) is None {
        let k = days.len() as int;
        lemma_day_at(after, k);
    }
}

/// Putting a task with the same identifier into the place of a waiting task
/// keeps the store well-formed and every task where it stood.
pub proof fn lemma_with_task(days: Seq<DayView>, k: int, i: int, task: TaskView)
    requires
        store_wf(days),
        0 <= k < days.len(),
        0 <= i < days[k].todo.len(),
        task.id == days[k].todo[i].id,
    ensures
        store_wf(with_task(days, k, i, task)),
        with_task(days, k, i, task).len() == days.len(),
        forall|day: Seq<char>| #[trigger]
            position(with_task(days, k, i, task), on_day(day)) == position(days, on_day(day)),
        forall|day: Seq<char>, id: Seq<char>| #[trigger]
            find_task(with_task(days, k, i, task), day, id) == find_task(days, day, id),
{
    let after = with_task(days, k, i, task);
    assert forall|day: Seq<char>| #[trigger]
        position(after, on_day(day)) == position(days, on_day(day)) by {
        lemma_day_position_kept(days, after, day);
    }
    assert forall|day: Seq<char>, id: Seq<char>| #[trigger]
        find_task(after, day, id) == find_task(days, day, id) by {
        match position(days, on_day(day)) {
            Some(d) => {
                if d == k {
                    lemma_id_position_kept(days[k].todo, after[k].todo, id);
                } else {
                    assert(after[d] == days[d]);
                }
            },
            None => {},
        }
    }
}

/// In a well-formed state the active task is found where `active_slot` says,
/// and nowhere else is a task marked `doing`.
pub proof fn lemma_active_slot(s: EngineView)
    requires
        s.wf(),
    ensures
        match s.active_slot() {
            Some((k, i)) => {
                &&& s.active matches Some(a)
                &&& 0 <= k < s.days.len()
                &&& 0 <= i < s.days[k].todo.len()
                &&& s.days[k].day == a.day
                &&& s.days[k].todo[i].id == a.task.id
                &&& s.days[k].todo[i].status == status_doing()
            },
            None => s.active is None,
        },
{
    match s.active {
        None => {},
        Some(a) => {
            let k = position(s.days, on_day(a.day))->Some_0;
            lemma_id_position(s.days[k].todo, a.task.id);
        },
    }
}

/// Giving up the active task leaves a well-formed state in which no task is
/// marked `doing`.
pub proof fn lemma_cleared(s: EngineView)
    requires
        s.wf(),
    ensures
        s.cleared().wf(),
        s.cleared().days.len() == s.days.len(),
        forall|k: int, i: int|
            0 <= k < s.days.len() && 0 <= i < s.cleared().days[k].todo.len() ==> (
            #[trigger] s.cleared().days[k].todo[i]).status != status_doing(),
        forall|k: int|
            0 <= k < s.days.len() ==> {
                &&& (#[trigger] s.cleared().days[k]).day == s.days[k].day
                &&& s.cleared().days[k].done == s.days[k].done
                &&& s.cleared().days[k].todo.len() == s.days[k].todo.len()
            },
        forall|k: int, i: int|
            0 <= k < s.days.len() && 0 <= i < s.days[k].todo.len() ==> {
                &&& (#[trigger] s.cleared().days[k].todo[i]).id == s.days[k].todo[i].id
                &&& s.cleared().days[k].todo[i].title == s.days[k].todo[i].title
                &&& s.cleared().days[k].todo[i].time_spent == s.days[k].todo[i].time_spent
                &&& s.days[k].todo[i].status != status_doing() ==> s.cleared().days[k].todo[i]
                    == s.days[k].todo[i]
                &&& s.days[k].todo[i].status == status_doing() ==> s.cleared().days[k].todo[i]
                    == s.days[k].todo[i].with_status(status_todo())
            },
        forall|day: Seq<char>| #[trigger]
            position(s.cleared().days, on_day(day)) == position(s.days, on_day(day)),
        forall|day: Seq<char>, id: Seq<char>| #[trigger]
            find_task(s.cleared().days, day, id) == find_task(s.days, day, id),
{
    lemma_statuses_differ();
    let c = s.cleared();
    match s.active_slot() {
        None => {},
        Some((k, i)) => {
            let task = s.days[k].todo[i].with_status(status_todo());
            lemma_with_task(s.days, k, i, task);
            assert forall|k2: int, i2: int|
                0 <= k2 < s.days.len() && 0 <= i2 < s.days[k2].todo.len() implies {
                &&& (#[trigger] c.days[k2].todo[i2]).id == s.days[k2].todo[i2].id
                &&& c.days[k2].todo[i2].title == s.days[k2].todo[i2].title
                &&& c.days[k2].todo[i2].time_spent == s.days[k2].todo[i2].time_spent
                &&& s.days[k2].todo[i2].status != status_doing() ==> c.days[k2].todo[i2]
                    == s.days[k2].todo[i2]
                &&& s.days[k2].todo[i2].status == status_doing() ==> c.days[k2].todo[i2]
                    == s.days[k2].todo[i2].with_status(status_todo())
            } by {
                lemma_doing_is_active(s, k2, i2);
            }
        },
    }
}

/// In a well-formed state the only task marked `doing` is the one at the
/// active slot.
pub proof fn lemma_doing_is_active(s: EngineView, k: int, i: int)
    requires
        s.wf(),
        0 <= k < s.days.len(),
        0 <= i < s.days[k].todo.len(),
    ensures
        s.days[k].todo[i].status == status_doing() <==> s.active_slot() == Some((k, i)),
{
    if s.days[k].todo[i].status == status_doing() {
        assert(s.is_active(s.days[k].day, s.days[k].todo[i].id));
    }
}

/// Making a waiting task the active one keeps the invariant.
pub proof fn lemma_activated_at(s: EngineView, k: int, i: int)
    requires
        s.wf(),
        0 <= k < s.days.len(),
        0 <= i < s.days[k].todo.len(),
    ensures
        s.activated_at(k, i).wf(),
        s.activated_at(k, i).active_slot() == Some((k, i)),
        s.activated_at(k, i).days.len() == s.days.len(),
{
    lemma_statuses_differ();
    let day = s.days[k].day;
    let id = s.days[k].todo[i].id;
    let base = if s.is_active(day, id) {
        s.days
    } else {
        s.released()
    };
    let task = base[k].todo[i].with_status(status_doing());
    let after = s.activated_at(k, i);
    assert(after.days == with_task(base, k, i, task));
    lemma_with_task(base, k, i, task);
    lemma_day_at(base, k);
    lemma_id_at(base[k].todo, i);
}

/// Adding a day changes nothing else: the state stays well-formed and every
/// task is found where it was.
pub proof fn lemma_with_day_state(s: EngineView, day: Seq<char>)
    requires
        s.wf(),
    ensures
        s.with_day(day).wf(),
        s.with_day(day).active_slot() == s.active_slot(),
        forall|d: Seq<char>, id: Seq<char>| #[trigger]
            find_task(with_day(s.days, day), d, id) == find_task(s.days, d, id),
{
    lemma_with_day(s.days, day);
    let after = s.with_day(day);
    assert forall|d: Seq<char>, id: Seq<char>| #[trigger]
        find_task(after.days, d, id) == find_task(s.days, d, id) by {
        lemma_day_position(s.days, d);
        lemma_day_position(after.days, d);
        if position(s.days, on_day(day)) is None {
            match position(s.days, on_day(d)) {
                Some(k) => {
                    assert(after.days[k] == s.days[k]);
                },
                None => {
                    if d == day {
                        lemma_id_position(after.days[slot_of(s.days, day)].todo, id);
                    } else {
                        assert forall|j: int| 0 <= j < after.days.len() implies !on_day(d)(
                            #[trigger] after.days[j],
                        ) by {
                            if j < s.days.len() {
                                assert(after.days[j] == s.days[j]);
                            }
                        }
                    }
                },
            }
        }
    }
}

/// `create` keeps the invariant.
pub proof fn lemma_created(
    s: EngineView,
    day: Seq<char>,
    title: Seq<char>,
    state_id: Option<Seq<char>>,
    id: Seq<char>,
)
    requires
        s.wf(),
    ensures
        s.created(day, title, state_id, id).wf(),
{
    lemma_statuses_differ();
    lemma_with_day_state(s, day);
    let with = s.with_day(day);
    let k = slot_of(s.days, day);
    let after = s.created(day, title, state_id, id);
    if s.create_error(day, title, id) is None {
        let task = new_task(day, title, state_id, id);
        let bucket = with.days[k];
        match s.active {
            None => {},
            Some(a) => {
                let (ak, ai) = with.active_slot()->Some_0;
                lemma_day_position_kept(with.days, after.days, a.day);
                if ak == k {
                    assert(is_first(after.days[k].todo, with_id(a.task.id), ai)) by {
                        assert(after.days[k].todo[ai] == bucket.todo[ai]);
                    }
                } else {
                    assert(after.days[ak] == with.days[ak]);
                }
            },
        }
    }
}

/// `activate` keeps the invariant.
pub proof fn lemma_activated(s: EngineView, day: Seq<char>, title: Seq<char>)
    requires
        s.wf(),
    ensures
        s.activated(day, title).wf(),
{
    lemma_with_day(s.days, day);
    let with = s.with_day(day);
    let k = slot_of(s.days, day);
    match (s.activate_result(day, title), position(bucket_of(s.days, day).todo, titled(title))) {
        (Ok(_), Some(i)) => {
            lemma_activated_at(with, k, i);
        },
        _ => {},
    }
}

/// `set_active_task` keeps the invariant.
pub proof fn lemma_set_active(s: EngineView, day: Seq<char>, id: Seq<char>)
    requires
        s.wf(),
    ensures
        s.set_active(day, id).wf(),
{
    match position(s.days, on_day(day)) {
        None => {},
        Some(k) => {
            match position(s.days[k].todo, with_id(id)) {
                None => {},
                Some(i) => {
                    lemma_activated_at(s, k, i);
                },
            }
        },
    }
}

/// A successful `deactivate` gives up the active task, and nothing else; a
/// refused one only leaves the day among the days.
pub proof fn lemma_deactivated(s: EngineView, day: Seq<char>, title: Seq<char>)
    requires
        s.wf(),
    ensures
        s.deactivated(day, title).wf(),
        s.deactivate_error(day, title) is None ==> s.deactivated(day, title) == s.cleared()
            && s.active is Some,
        s.deactivate_error(day, title) is Some ==> s.deactivated(day, title) == s.with_day(day),
{
    lemma_with_day_state(s, day);
    let with = s.with_day(day);
    let k = slot_of(s.days, day);
    match (s.deactivate_error(day, title), position(with.days[k].todo, titled(title))) {
        (None, Some(i)) => {
            lemma_cleared(s);
        },
        _ => {},
    }
}

/// Taking one task out of a list with unique identifiers leaves the others
/// findable: each stands at its index, or one lower if it stood behind the
/// gap.
pub proof fn lemma_removed(tasks: Seq<TaskView>, i: int)
    requires
        distinct_ids(tasks),
        0 <= i < tasks.len(),
    ensures
        distinct_ids(tasks.remove(i)),
        position(tasks.remove(i), with_id(tasks[i].id)) is None,
        forall|j: int|
            0 <= j < tasks.len() && j != i ==> #[trigger] position(
                tasks.remove(i),
                with_id(tasks[j].id),
            ) == Some(
                if j < i {
                    j
                } else {
                    j - 1
                },
            ),
{
    let after = tasks.remove(i);
    assert forall|j: int| 0 <= j < tasks.len() && j != i implies #[trigger] position(
        after,
        with_id(tasks[j].id),
    ) == Some(
        if j < i {
            j
        } else {
            j - 1
        },
    ) by {
        let j1 = if j < i {
            j
        } else {
            j - 1
        };
        lemma_id_at(after, j1);
    }
}

/// Taking one task out of a list with unique identifiers and moving the last
/// into the gap leaves the others findable: the last stands in the gap, every
/// other one where it stood.
pub proof fn lemma_swap_removed(tasks: Seq<TaskView>, i: int)
    requires
        distinct_ids(tasks),
        0 <= i < tasks.len(),
    ensures
        distinct_ids(swap_removed(tasks, i)),
        swap_removed(tasks, i).len() == tasks.len() - 1,
        position(swap_removed(tasks, i), with_id(tasks[i].id)) is None,
        forall|j: int|
            0 <= j < tasks.len() && j != i ==> #[trigger] position(
                swap_removed(tasks, i),
                with_id(tasks[j].id),
            ) == Some(
                if j == tasks.len() - 1 {
                    i
                } else {
                    j
                },
            ),
        forall|j: int|
            0 <= j < tasks.len() && j != i ==> swap_removed(tasks, i)[if j == tasks.len() - 1 {
                i
            } else {
                j
            }] == #[trigger] tasks[j],
{
    let after = swap_removed(tasks, i);
    let last = tasks.len() - 1;
    assert forall|j: int| 0 <= j < tasks.len() && j != i implies #[trigger] position(
        after,
        with_id(tasks[j].id),
    ) == Some(
        if j == tasks.len() - 1 {
            i
        } else {
            j
        },
    ) by {
        let j1 = if j == last {
            i
        } else {
            j
        };
        lemma_id_at(after, j1);
    }
}

/// Storing a task under its identifier keeps identifiers unique.
pub proof fn lemma_upserted(tasks: Seq<TaskView>, task: TaskView)
    requires
        distinct_ids(tasks),
    ensures
        distinct_ids(upserted(tasks, task)),
        forall|j: int|
            0 <= j < upserted(tasks, task).len() ==> (#[trigger] upserted(tasks, task)[j]) == task
                || (j < tasks.len() && upserted(tasks, task)[j] == tasks[j]),
{
    lemma_id_position(tasks, task.id);
    let after = upserted(tasks, task);
    assert forall|a: int, b: int| 0 <= a < b < after.len() implies (#[trigger] after[a]).id != (
    #[trigger] after[b]).id by {
        match position(tasks, with_id(task.id)) {
            Some(j) => {
                assert(after[a].id == tasks[a].id);
            },
            None => {
                if b < tasks.len() {
                    assert(after[a] == tasks[a]);
                } else {
                    assert(after[a] == tasks[a]);
                }
            },
        }
    }
}

/// Replacing the day at `k` by a day with the same key keeps the place of
/// every day.
pub proof fn lemma_day_replaced(days: Seq<DayView>, k: int, day: DayView)
    requires
        store_wf(days),
        0 <= k < days.len(),
        day.day == days[k].day,
        day.wf(),
    ensures
        store_wf(days.update(k, day)),
        forall|d: Seq<char>| #[trigger]
            position(days.update(k, day), on_day(d)) == position(days, on_day(d)),
{
    let after = days.update(k, day);
    assert forall|d: Seq<char>| #[trigger]
        position(after, on_day(d)) == position(days, on_day(d)) by {
        lemma_day_position_kept(days, after, d);
    }
}

/// `complete` keeps the invariant.
pub proof fn lemma_completed(s: EngineView, day: Seq<char>, title: Seq<char>)
    requires
        s.wf(),
    ensures
        s.completed(day, title).wf(),
{
    lemma_statuses_differ();
    lemma_with_day_state(s, day);
    let with = s.with_day(day);
    let days = with.days;
    let k = slot_of(s.days, day);
    let after = s.completed(day, title);
    match position(days[k].todo, titled(title)) {
        None => {},
        Some(i) => {
            let task = days[k].todo[i].with_status(status_done());
            let bucket = days[k];
            let new_bucket = after.days[k];
            lemma_removed(bucket.todo, i);
            lemma_upserted(bucket.done, task);
            lemma_day_replaced(days, k, new_bucket);
            match after.active {
                None => {},
                Some(a) => {
                    let (ak, ai) = with.active_slot()->Some_0;
                    if ak == k {
                        assert(ai != i);
                    } else {
                        assert(after.days[ak] == days[ak]);
                    }
                },
            }
        },
    }
}

/// `delete` keeps the invariant.
pub proof fn lemma_deleted(s: EngineView, day: Seq<char>, title: Seq<char>)
    requires
        s.wf(),
    ensures
        s.deleted(day, title).wf(),
{
    lemma_with_day_state(s, day);
    let with = s.with_day(day);
    let days = with.days;
    let k = slot_of(s.days, day);
    let after = s.deleted(day, title);
    match position(days[k].todo, titled(title)) {
        None => {},
        Some(i) => {
            let bucket = days[k];
            let new_bucket = after.days[k];
            let last = bucket.todo.len() - 1;
            lemma_swap_removed(bucket.todo, i);
            lemma_day_replaced(days, k, new_bucket);
            assert forall|k2: int, i2: int|
                0 <= k2 < after.days.len() && 0 <= i2 < after.days[k2].todo.len() && (
                #[trigger] after.days[k2].todo[i2]).status == status_doing() implies after.is_active(
                after.days[k2].day,
                after.days[k2].todo[i2].id,
            ) by {
                if k2 == k {
                    let i0 = if i2 == i {
                        last
                    } else {
                        i2
                    };
                    if i0 < i {
                        assert(bucket.todo[i0].id != bucket.todo[i].id);
                    } else {
                        assert(bucket.todo[i].id != bucket.todo[i0].id);
                    }
                } else {
                    assert(after.days[k2] == days[k2]);
                }
            }
            match after.active {
                None => {},
                Some(a) => {
                    let (ak, ai) = with.active_slot()->Some_0;
                    if ak == k {
                        assert(ai != i);
                    } else {
                        assert(after.days[ak] == days[ak]);
                    }
                },
            }
        },
    }
}

/// A tick keeps the invariant.
pub proof fn lemma_ticked(s: EngineView, today: Seq<char>)
    requires
        s.wf(),
    ensures
        s.ticked(today).wf(),
        s.ticked(today).active_slot() == s.active_slot(),
        s.ticked(today).active == s.active,
{
    match s.tick_slot(today) {
        None => {},
        Some((k, i)) => {
            let a = s.active->Some_0;
            lemma_id_position(s.days[k].todo, a.task.id);
            let task = s.days[k].todo[i].with_second();
            lemma_with_task(s.days, k, i, task);
            let after = s.ticked(today);
            let (ak, ai) = s.active_slot()->Some_0;
            if ak == k && ai == i {
            } else if ak == k {
                assert(after.days[ak].todo[ai] == s.days[ak].todo[ai]);
            } else {
                assert(after.days[ak] == s.days[ak]);
            }
        },
    }
}

/// Any number of ticks keeps the invariant and the active task.
pub proof fn lemma_ticked_times(s: EngineView, today: Seq<char>, n: nat)
    requires
        s.wf(),
    ensures
        s.ticked_times(today, n).wf(),
        s.ticked_times(today, n).active == s.active,
        s.ticked_times(today, n).active_slot() == s.active_slot(),
    decreases n,
{
    if n > 0 {
        lemma_ticked_times(s, today, (n - 1) as nat);
        lemma_ticked(s.ticked_times(today, (n - 1) as nat), today);
    }
}

} // verus!
