//! The insertion-ordered maps that the store is built from, and what is
//! taken on trust about them.
//!
//! The maps are `indexmap::IndexMap`s. Their contents are known to the
//! verifier only through `task_entries` and `day_entries`, and through the
//! contracts below, each of which restates the documentation of the method
//! that its function calls. Nothing here is proved.

use crate::store::{BucketEntries, DayBucket};
use crate::task::{Task, TaskView};
use indexmap::IndexMap;
use std::collections::hash_map::RandomState;
use vstd::prelude::*;

verus! {

/// `indexmap::IndexMap`, a hash map that keeps its entries in the order in
/// which their keys were first inserted.
#[verifier::external_type_specification]
#[verifier::external_body]
#[verifier::reject_recursive_types(K)]
#[verifier::reject_recursive_types(V)]
#[verifier::reject_recursive_types(S)]
pub struct ExIndexMap<K, V, S>(IndexMap<K, V, S>);

/// A map from task identifiers to tasks.
pub type TaskMap = IndexMap<String, Task, RandomState>;

/// A map from day keys to day buckets.
pub type DayMap = IndexMap<String, DayBucket, RandomState>;

/// The entries of a map of tasks, in the map's order: each key with the value
/// of the task stored under it.
pub uninterp spec fn task_entries(m: IndexMap<String, Task, RandomState>) -> Seq<
    (Seq<char>, TaskView),
>;

/// The entries of a map of days, in the map's order: each key with the entries
/// of the bucket stored under it.
pub uninterp spec fn day_entries(m: IndexMap<String, DayBucket, RandomState>) -> Seq<
    (Seq<char>, BucketEntries),
>;

/// Whether an entry has the key `key`.
pub open spec fn has_key<V>(entries: Seq<(Seq<char>, V)>, key: Seq<char>) -> bool {
    exists|i: int| 0 <= i < entries.len() && (#[trigger] entries[i]).0 == key
}

/// An index at which the key `key` stands, where it stands anywhere.
pub open spec fn key_index<V>(entries: Seq<(Seq<char>, V)>, key: Seq<char>) -> int {
    choose|i: int| 0 <= i < entries.len() && (#[trigger] entries[i]).0 == key
}

/// The entries after `value` was inserted under `key`: in the place of the
/// entry that had the key, or else at the end.
pub open spec fn inserted<V>(entries: Seq<(Seq<char>, V)>, key: Seq<char>, value: V) -> Seq<
    (Seq<char>, V),
> {
    if has_key(entries, key) {
        entries.update(key_index(entries, key), (key, value))
    } else {
        entries.push((key, value))
    }
}

/// What a lookup by key returns: an index at which the key stands, or `None`
/// where it stands nowhere.
pub open spec fn found<V>(entries: Seq<(Seq<char>, V)>, key: Seq<char>, r: Option<usize>) -> bool {
    match r {
        Some(i) => i < entries.len() && entries[i as int].0 == key,
        None => forall|j: int| 0 <= j < entries.len() ==> (#[trigger] entries[j]).0 != key,
    }
}

/// `IndexMap::new`: a map without entries.
#[verifier::external_body]
pub(crate) fn tasks_new() -> (m: TaskMap)
    ensures
        task_entries(m) == Seq::<(Seq<char>, TaskView)>::empty(),
{
    IndexMap::new()
}

/// `IndexMap::len`: the number of entries.
#[verifier::external_body]
pub(crate) fn tasks_len(m: &TaskMap) -> (n: usize)
    ensures
        n == task_entries(*m).len(),
{
    m.len()
}

/// `Index<usize>` of `IndexMap`: the value of the entry at `i`. It panics
/// where `i` is out of bounds.
#[verifier::external_body]
pub(crate) fn tasks_at(m: &TaskMap, i: usize) -> (task: &Task)
    requires
        i < task_entries(*m).len(),
    ensures
        task@ == task_entries(*m)[i as int].1,
{
    &m[i]
}

/// `IndexMut<usize>` of `IndexMap`: the value of the entry at `i`, to be
/// changed in place; the key and every other entry stay. It panics where `i`
/// is out of bounds.
#[verifier::external_body]
pub(crate) fn tasks_at_mut(m: &mut TaskMap, i: usize) -> (task: &mut Task)
    requires
        i < task_entries(*old(m)).len(),
    ensures
        task@ == task_entries(*old(m))[i as int].1,
        task_entries(*final(m)) == task_entries(*old(m)).update(
            i as int,
            (task_entries(*old(m))[i as int].0, final(task)@),
        ),
{
    &mut m[i]
}

/// `IndexMap::get_index_of`: the index of the entry with this key.
#[verifier::external_body]
pub(crate) fn tasks_index_of(m: &TaskMap, key: &str) -> (r: Option<usize>)
    ensures
        found(task_entries(*m), key@, r),
{
    m.get_index_of(key)
}

/// `IndexMap::insert`: an entry with an equal key keeps its place and gets
/// the new value; otherwise the pair is added last.
#[verifier::external_body]
pub(crate) fn tasks_insert(m: &mut TaskMap, key: String, task: Task)
    ensures
        task_entries(*final(m)) == inserted(task_entries(*old(m)), key@, task@),
{
    m.insert(key, task);
}

/// `IndexMap::shift_remove_index`: the entry at `i` leaves and those behind it
/// move up by one, keeping their order; `None`, and no change, where `i` is
/// out of bounds.
#[verifier::external_body]
pub(crate) fn tasks_shift_remove(m: &mut TaskMap, i: usize) -> (r: Option<Task>)
    ensures
        i < task_entries(*old(m)).len() ==> r is Some && r->Some_0@ == task_entries(
            *old(m),
        )[i as int].1 && task_entries(*final(m)) == task_entries(*old(m)).remove(i as int),
        i >= task_entries(*old(m)).len() ==> r is None && task_entries(*final(m)) == task_entries(
            *old(m),
        ),
{
    m.shift_remove_index(i).map(|entry| entry.1)
}

/// `IndexMap::swap_remove_index`: the entry at `i` leaves and the last entry
/// takes its place; `None`, and no change, where `i` is out of bounds.
#[verifier::external_body]
pub(crate) fn tasks_swap_remove(m: &mut TaskMap, i: usize) -> (r: Option<Task>)
    ensures
        i < task_entries(*old(m)).len() ==> r is Some && r->Some_0@ == task_entries(
            *old(m),
        )[i as int].1 && task_entries(*final(m)) == crate::model::swap_removed(
            task_entries(*old(m)),
            i as int,
        ),
        i >= task_entries(*old(m)).len() ==> r is None && task_entries(*final(m)) == task_entries(
            *old(m),
        ),
{
    m.swap_remove_index(i).map(|entry| entry.1)
}

/// `IndexMap::new`: a map without entries.
#[verifier::external_body]
pub(crate) fn days_new() -> (m: DayMap)
    ensures
        day_entries(m) == Seq::<(Seq<char>, BucketEntries)>::empty(),
{
    IndexMap::new()
}

/// `IndexMap::len`: the number of entries.
#[verifier::external_body]
pub(crate) fn days_len(m: &DayMap) -> (n: usize)
    ensures
        n == day_entries(*m).len(),
{
    m.len()
}

/// `Index<usize>` of `IndexMap`: the value of the entry at `k`. It panics
/// where `k` is out of bounds.
#[verifier::external_body]
pub(crate) fn days_at(m: &DayMap, k: usize) -> (bucket: &DayBucket)
    requires
        k < day_entries(*m).len(),
    ensures
        bucket.entries() == day_entries(*m)[k as int].1,
{
    &m[k]
}

/// `IndexMap::get_index`: the key of the entry at `k`; `None` where `k` is out
/// of bounds.
#[verifier::external_body]
pub(crate) fn days_key_at(m: &DayMap, k: usize) -> (key: Option<&String>)
    ensures
        k < day_entries(*m).len() ==> key is Some && key->Some_0@ == day_entries(*m)[k as int].0,
        k >= day_entries(*m).len() ==> key is None,
{
    m.get_index(k).map(|entry| entry.0)
}

/// `IndexMut<usize>` of `IndexMap`: the value of the entry at `k`, to be
/// changed in place; the key and every other entry stay. It panics where `k`
/// is out of bounds.
#[verifier::external_body]
pub(crate) fn days_at_mut(m: &mut DayMap, k: usize) -> (bucket: &mut DayBucket)
    requires
        k < day_entries(*old(m)).len(),
    ensures
        bucket.entries() == day_entries(*old(m))[k as int].1,
        day_entries(*final(m)) == day_entries(*old(m)).update(
            k as int,
            (day_entries(*old(m))[k as int].0, final(bucket).entries()),
        ),
{
    &mut m[k]
}

/// `IndexMap::get_index_of`: the index of the entry with this key.
#[verifier::external_body]
pub(crate) fn days_index_of(m: &DayMap, key: &str) -> (r: Option<usize>)
    ensures
        found(day_entries(*m), key@, r),
{
    m.get_index_of(key)
}

/// `IndexMap::insert`: an entry with an equal key keeps its place and gets
/// the new value; otherwise the pair is added last.
#[verifier::external_body]
pub(crate) fn days_insert(m: &mut DayMap, key: String, bucket: DayBucket)
    ensures
        day_entries(*final(m)) == inserted(day_entries(*old(m)), key@, bucket.entries()),
{
    m.insert(key, bucket);
}

} // verus!
