//! Productivity states: named buckets of accumulated time that tasks may
//! belong to.

use crate::reply::{accepted, refused, reply_view};
use crate::text::{join_from, joined_from, texts};
use std::collections::HashMap;
use uuid::Uuid;
use vstd::prelude::*;

verus! {

broadcast use vstd::std_specs::hash::group_hash_axioms;

/// A productivity state. `id` is the 128-bit value of its identifier;
/// `total_time` counts seconds.
#[derive(Debug)]
pub struct State {
    pub id: u128,
    pub name: String,
    pub total_time: u64,
}

/// The mathematical value of a `State`.
pub struct StateView {
    pub id: u128,
    pub name: Seq<char>,
    pub total_time: nat,
}

impl View for State {
    type V = StateView;

    open spec fn view(&self) -> StateView {
        StateView { id: self.id, name: self.name@, total_time: self.total_time as nat }
    }
}

impl Clone for State {
    fn clone(&self) -> (r: Self)
        ensures
            r@ == self@,
    {
        State { id: self.id, name: self.name.clone(), total_time: self.total_time }
    }
}

/// The value of an optional state.
pub open spec fn state_option(state: Option<State>) -> Option<StateView> {
    match state {
        Some(s) => Some(s@),
        None => None,
    }
}

/// What `uuid::Uuid::parse_str` makes of a text: the 128-bit value of the
/// identifier that it reads, or else its error, written with `to_string`.
pub uninterp spec fn uuid_read(text: Seq<char>) -> Result<u128, Seq<char>>;

/// The value of what reading an identifier returns.
pub open spec fn read_view(r: Result<u128, String>) -> Result<u128, Seq<char>> {
    match r {
        Ok(id) => Ok(id),
        Err(text) => Err(text@),
    }
}

/// Calls `uuid::Uuid::parse_str` and returns the identifier's `as_u128`, or
/// the error's `to_string`. The result is a function of the text alone; the
/// contract gives it the name `uuid_read` and says nothing more of it.
#[verifier::external_body]
fn read_uuid(text: &str) -> (r: Result<u128, String>)
    ensures
        read_view(r) == uuid_read(text@),
{
    match Uuid::parse_str(text) {
        Ok(id) => Ok(id.as_u128()),
        Err(e) => Err(e.to_string()),
    }
}

/// Calls `uuid::Uuid::new_v4` and returns the identifier's `as_u128`. The
/// identifier is drawn at random, so nothing is promised of the result. Where
/// the system gives no random bytes, `new_v4` panics; no argument causes that.
#[verifier::external_body]
fn fresh_state_id() -> u128 {
    Uuid::new_v4().as_u128()
}

/// The mathematical value of `States`: the states by identifier, and the
/// active state.
pub struct StatesView {
    pub store: Map<u128, StateView>,
    pub active: Option<StateView>,
}

/// A state as `create_state` makes it.
pub open spec fn new_state(id: u128, name: Seq<char>) -> StateView {
    StateView { id, name, total_time: 0 }
}

/// The seconds that a counter shows after `seconds` more: it stops at the
/// largest value that it can hold.
pub open spec fn time_after(total: nat, seconds: nat) -> nat {
    if total + seconds <= u64::MAX {
        total + seconds
    } else {
        u64::MAX as nat
    }
}

impl StatesView {
    /// Whether a state has the name `name`.
    pub open spec fn has_name(self, name: Seq<char>) -> bool {
        exists|id: u128| self.store.contains_key(id) && (#[trigger] self.store[id]).name == name
    }

    /// The states after `create_state`: the new state stands under its
    /// identifier, in the place of a state that had it.
    pub open spec fn created(self, id: u128, name: Seq<char>) -> StatesView {
        StatesView { store: self.store.insert(id, new_state(id, name)), ..self }
    }

    /// The states after `edit_state`.
    pub open spec fn edited(self, id: u128, name: Seq<char>) -> StatesView {
        if self.store.contains_key(id) {
            StatesView {
                store: self.store.insert(id, StateView { name, ..self.store[id] }),
                ..self
            }
        } else {
            self
        }
    }

    /// The states after `delete_state`.
    pub open spec fn deleted(self, id: u128) -> StatesView {
        StatesView { store: self.store.remove(id), ..self }
    }

    /// The states after `seconds` were added to the state `id`.
    pub open spec fn timed(self, id: u128, seconds: nat) -> StatesView {
        if self.store.contains_key(id) {
            StatesView {
                store: self.store.insert(
                    id,
                    StateView {
                        total_time: time_after(self.store[id].total_time, seconds),
                        ..self.store[id]
                    },
                ),
                ..self
            }
        } else {
            self
        }
    }

    /// Every state stands under its own identifier.
    pub open spec fn wf(self) -> bool {
        forall|id: u128| self.store.contains_key(id) ==> (#[trigger] self.store[id]).id == id
    }
}

/// The productivity states, and the one that is active.
pub struct States {
    store: HashMap<u128, State>,
    active: Option<State>,
}

impl View for States {
    type V = StatesView;

    closed spec fn view(&self) -> StatesView {
        StatesView {
            store: Map::new(|id: u128| self.store@.contains_key(id), |id: u128| self.store@[id]@),
            active: state_option(self.active),
        }
    }
}

impl States {
    /// No states.
    pub fn new() -> (states: States)
        ensures
            states@.wf(),
            states@.store == Map::<u128, StateView>::empty(),
            states@.active is None,
    {
        let states = States { store: HashMap::new(), active: None };
        states
    }

    /// The states of `list`, each stored under its identifier, a later one
    /// replacing an earlier one with the same identifier.
    pub fn restore(list: Vec<State>) -> (states: States)
        ensures
            states@.wf(),
            states@.active is None,
            forall|id: u128| #[trigger]
                states@.store.contains_key(id) <==> exists|i: int|
                    0 <= i < list.len() && (#[trigger] list[i]).id == id,
            forall|i: int|
                0 <= i < list.len() ==> (forall|j: int| i < j < list.len() ==> list[j].id
                    != list[i].id) ==> states@.store[(#[trigger] list[i]).id] == list[i]@,
    {
        let mut states = States::new();
        let mut k: usize = 0;
        while k < list.len()
            invariant
                k <= list.len(),
                states@.wf(),
                states@.active is None,
                forall|id: u128| #[trigger]
                    states@.store.contains_key(id) <==> exists|i: int|
                        0 <= i < k && (#[trigger] list[i]).id == id,
                forall|i: int|
                    0 <= i < k ==> (forall|j: int| i < j < k ==> list[j].id != list[i].id)
                        ==> states@.store[(#[trigger] list[i]).id] == list[i]@,
            decreases list.len() - k,
        {
            let state = list[k].clone();
            let ghost before = states@;
            states.store.insert(state.id, state);
            proof {
                assert(states@.store =~= before.store.insert(list[k as int].id, list[k as int]@));
            }
            k = k + 1;
        }
        states
    }
}

/// The states as a list, in no particular order: every state once.
pub fn list_states(states: &States) -> (r: Result<Vec<State>, String>)
    requires
        states@.wf(),
    ensures
        r matches Ok(list) && {
            &&& list.len() == states@.store.dom().len()
            &&& forall|i: int|
                0 <= i < list.len() ==> states@.store.contains_key((#[trigger] list[i]).id)
                    && states@.store[list[i].id] == list[i]@
            &&& forall|i: int, j: int|
                0 <= i < j < list.len() ==> (#[trigger] list[i]).id != (#[trigger] list[j]).id
        },
{
    let mut list: Vec<State> = Vec::new();
    for entry in it: states.store.iter()
        invariant
            states@.wf(),
            states@.store.dom() == states.store@.dom(),
            it.seq().len() == states.store@.dom().len(),
            it.seq().no_duplicates(),
            forall|i: int|
                0 <= i < it.seq().len() ==> states.store@.contains_key(*(#[trigger] it.seq()[i]).0)
                    && states.store@[*it.seq()[i].0] == *it.seq()[i].1,
            list.len() == it.index(),
            forall|i: int| 0 <= i < list.len() ==> (#[trigger] list[i]).id == *it.seq()[i].0,
            forall|i: int|
                0 <= i < list.len() ==> states@.store.contains_key((#[trigger] list[i]).id)
                    && states@.store[list[i].id] == list[i]@,
            forall|i: int, j: int|
                0 <= i < j < list.len() ==> (#[trigger] list[i]).id != (#[trigger] list[j]).id,
    {
        let ghost n = it.index();
        let ghost before = list@;
        let (key, state) = entry;
        proof {
            assert(states@.store[*key].id == *key);
            assert forall|i: int| 0 <= i < n implies before[i].id != *key by {
                if before[i].id == *key {
                    assert(states.store@.contains_key(*it.seq()[i].0));
                }
            }
        }
        list.push(state.clone());
    }
    Ok(list)
}

/// A state with the name `name`, if there is one; where several have it, any
/// of them.
pub fn get_state_by_name(states: &States, name: &str) -> (r: Option<State>)
    requires
        states@.wf(),
    ensures
        r is Some <==> states@.has_name(name@),
        r matches Some(s) ==> s@.name == name@ && states@.store.contains_key(s.id)
            && states@.store[s.id] == s@,
{
    let wanted = String::from_str(name);
    for entry in it: states.store.iter()
        invariant
            states@.wf(),
            wanted@ == name@,
            it.seq().len() == states.store@.dom().len(),
            forall|i: int|
                0 <= i < it.seq().len() ==> states.store@.contains_key(*(#[trigger] it.seq()[i]).0)
                    && states.store@[*it.seq()[i].0] == *it.seq()[i].1,
            forall|id: u128|
                states.store@.contains_key(id) && (#[trigger] states.store@[id])@.name == name@
                    ==> exists|i: int|
                    it.index() <= i < it.seq().len() && #[trigger] it.seq()[i] == (
                        &id,
                        &states.store@[id],
                    ),
    {
        let (key, state) = entry;
        if state.name == wanted {
            proof {
                assert(states@.store[*key].id == *key);
            }
            return Some(state.clone());
        }
    }
    None
}

/// Adds a state with the name `name` and no time under the identifier `id`. A
/// state that stood under the identifier is replaced.
pub fn create_state_with(states: &mut States, name: String, id: u128) -> (state: State)
    requires
        old(states)@.wf(),
    ensures
        final(states)@.wf(),
        final(states)@ == old(states)@.created(id, name@),
        state@ == new_state(id, name@),
{
    let state = State { id, name, total_time: 0 };
    let copy = state.clone();
    states.store.insert(id, state);
    assert(states@.store =~= old(states)@.store.insert(id, new_state(id, name@)));
    copy
}

/// Adds a state with the name `name` and no time, under a fresh identifier.
/// It always succeeds.
pub fn create_state(states: &mut States, name: String) -> (r: Result<State, String>)
    requires
        old(states)@.wf(),
    ensures
        final(states)@.wf(),
        r matches Ok(state) && state@ == new_state(state.id, name@) && final(states)@ == old(
            states,
        )@.created(state.id, name@),
{
    let id = fresh_state_id();
    Ok(create_state_with(states, name, id))
}

/// Gives the state `id` the name `name`. It is refused as `state not found`,
/// and nothing changes, where there is no such state.
pub fn edit_state_by(states: &mut States, id: u128, name: String) -> (r: Result<String, String>)
    requires
        old(states)@.wf(),
    ensures
        final(states)@.wf(),
        final(states)@ == old(states)@.edited(id, name@),
        reply_view(r) == (if old(states)@.store.contains_key(id) {
            accepted("edited"@)
        } else {
            refused("state not found"@)
        }),
{
    let found = match states.store.get(&id) {
        Some(state) => Some(State { id: state.id, name, total_time: state.total_time }),
        None => None,
    };
    match found {
        Some(state) => {
            states.store.insert(id, state);
            assert(states@.store =~= old(states)@.edited(id, name@).store);
            Ok(String::from_str("edited"))
        },
        None => {
            Err(String::from_str("state not found"))
        },
    }
}

/// Gives the state whose identifier the text `id` is the name `name`. It is
/// refused with the reader's words where the text is no identifier.
pub fn edit_state(states: &mut States, id: String, name: String) -> (r: Result<String, String>)
    requires
        old(states)@.wf(),
    ensures
        final(states)@.wf(),
        match uuid_read(id@) {
            Ok(key) => final(states)@ == old(states)@.edited(key, name@) && reply_view(r) == (
            if old(states)@.store.contains_key(key) {
                accepted("edited"@)
            } else {
                refused("state not found"@)
            }),
            Err(text) => final(states)@ == old(states)@ && reply_view(r) == refused(text),
        },
{
    match read_uuid(id.as_str()) {
        Ok(key) => edit_state_by(states, key, name),
        Err(text) => Err(text),
    }
}

/// Deletes the state `id`, if there is one. It always answers `deleted`.
pub fn delete_state_by(states: &mut States, id: u128) -> (r: Result<String, String>)
    requires
        old(states)@.wf(),
    ensures
        final(states)@.wf(),
        final(states)@ == old(states)@.deleted(id),
        reply_view(r) == accepted("deleted"@),
{
    let _ = states.store.remove(&id);
    assert(states@.store =~= old(states)@.store.remove(id));
    Ok(String::from_str("deleted"))
}

/// Deletes the state whose identifier the text `id` is. It is refused with
/// the reader's words where the text is no identifier.
pub fn delete_state(states: &mut States, id: String) -> (r: Result<String, String>)
    requires
        old(states)@.wf(),
    ensures
        final(states)@.wf(),
        match uuid_read(id@) {
            Ok(key) => final(states)@ == old(states)@.deleted(key) && reply_view(r) == accepted(
                "deleted"@,
            ),
            Err(text) => final(states)@ == old(states)@ && reply_view(r) == refused(text),
        },
{
    match read_uuid(id.as_str()) {
        Ok(key) => delete_state_by(states, key),
        Err(text) => Err(text),
    }
}

/// Adds `seconds` to the time of the state `id`, if there is one. The counter
/// stops at the largest value that it can hold.
pub fn add_total_time(states: &mut States, id: u128, seconds: u64)
    requires
        old(states)@.wf(),
    ensures
        final(states)@.wf(),
        final(states)@ == old(states)@.timed(id, seconds as nat),
{
    let found = match states.store.get(&id) {
        Some(state) => {
            let total = if state.total_time <= u64::MAX - seconds {
                state.total_time + seconds
            } else {
                u64::MAX
            };
            Some(State { id: state.id, name: state.name.clone(), total_time: total })
        },
        None => None,
    };
    match found {
        Some(state) => {
            states.store.insert(id, state);
            assert(states@.store =~= old(states)@.timed(id, seconds as nat).store);
        },
        None => {
            assert(!old(states)@.store.contains_key(id));
        },
    }
}

/// Adds `seconds` to the time of the state whose identifier the text `id` is,
/// if there is such a state. It is refused with the reader's words where the
/// text is no identifier.
pub fn increment_total_time(states: &mut States, id: &str, seconds: u64) -> (r: Result<(), String>)
    requires
        old(states)@.wf(),
    ensures
        final(states)@.wf(),
        match uuid_read(id@) {
            Ok(key) => final(states)@ == old(states)@.timed(key, seconds as nat) && r is Ok,
            Err(text) => final(states)@ == old(states)@ && r is Err && r->Err_0@ == text,
        },
{
    match read_uuid(id) {
        Ok(key) => {
            add_total_time(states, key, seconds);
            Ok(())
        },
        Err(text) => Err(text),
    }
}

/// Forgets the active state.
pub fn clear_active_state(states: &mut States)
    ensures
        final(states)@ == (StatesView { active: None, ..old(states)@ }),
{
    states.active = None;
}

/// Makes `state` the active state.
pub fn set_active_state(states: &mut States, state: State)
    ensures
        final(states)@ == (StatesView { active: Some(state@), ..old(states)@ }),
{
    states.active = Some(state);
}

/// A copy of the active state as it was when it became active.
pub fn get_active_state(states: &States) -> (r: Option<State>)
    ensures
        state_option(r) == states@.active,
{
    match &states.active {
        Some(state) => Some(state.clone()),
        None => None,
    }
}

/// Adds `seconds` to the time of the active state, if there is one and it
/// still stands among the states. It always succeeds.
pub fn increment_active_state(states: &mut States, seconds: u64) -> (r: Result<(), String>)
    requires
        old(states)@.wf(),
    ensures
        final(states)@.wf(),
        r is Ok,
        final(states)@ == (match old(states)@.active {
            Some(active) => old(states)@.timed(active.id, seconds as nat),
            None => old(states)@,
        }),
{
    let id = match &states.active {
        Some(active) => Some(active.id),
        None => None,
    };
    match id {
        Some(id) => add_total_time(states, id, seconds),
        None => {},
    }
    Ok(())
}

/// What `/state` answers, and whether it creates a state.
pub open spec fn state_reply(before: StatesView, parts: Seq<Seq<char>>) -> Result<
    Seq<char>,
    Seq<char>,
> {
    if parts.len() < 2 {
        refused("usage: /state [name]"@)
    } else if before.has_name(joined_from(parts, 1)) {
        refused("state already exists"@)
    } else {
        accepted("state created"@)
    }
}

/// `/state` with the identifier drawn: creates a state with the name that
/// the words behind the command give, under the identifier `id`. It is
/// refused, and nothing changes, where no name is given and where a state has
/// the name already.
pub fn command_state_with(states: &mut States, parts: &Vec<String>, id: u128) -> (r: Result<
    String,
    String,
>)
    requires
        old(states)@.wf(),
    ensures
        final(states)@.wf(),
        reply_view(r) == state_reply(old(states)@, texts(parts@)),
        final(states)@ == (if r is Ok {
            old(states)@.created(id, joined_from(texts(parts@), 1))
        } else {
            old(states)@
        }),
{
    if parts.len() < 2 {
        return Err(String::from_str("usage: /state [name]"));
    }
    let name = join_from(parts, 1);
    if get_state_by_name(states, name.as_str()).is_some() {
        return Err(String::from_str("state already exists"));
    }
    let _ = create_state_with(states, name, id);
    Ok(String::from_str("state created"))
}

/// `/state`: creates a state under a fresh identifier.
pub fn command_state(states: &mut States, parts: &Vec<String>) -> (r: Result<String, String>)
    requires
        old(states)@.wf(),
    ensures
        final(states)@.wf(),
        reply_view(r) == state_reply(old(states)@, texts(parts@)),
        r is Err ==> final(states)@ == old(states)@,
        r is Ok ==> exists|id: u128| #[trigger]
            old(states)@.created(id, joined_from(texts(parts@), 1)) == final(states)@,
{
    let id = fresh_state_id();
    let r = command_state_with(states, parts, id);
    r
}

} // verus!
