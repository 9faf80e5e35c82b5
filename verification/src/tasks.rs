//! The task commands: what the palette's `/todo`, `/doing`, `/done`,
//! `/break` and `/deleteT` do to the engine, and what they answer.
//!
//! Each command comes twice. The plain one reads the clock for the logical
//! day, and draws a fresh identifier where it needs one; the one whose name
//! ends in `_on` is told the day and the identifier, and its contract says
//! exactly what it does with them.

use crate::calendar::{
    current_day_key, get_current_logical_day_key, offset_or_zero, parsed_date, today_key_of,
    try_parse_date,
};
use crate::engine::Engine;
use crate::model::{bucket_of, new_task, EngineView, TaskError};
use crate::reply::{accepted, refused, reply_view};
use crate::store::task_views;
use crate::task::{text_option, Task, TaskView};
use crate::text::{join_from, joined_from, texts};
use uuid::Uuid;
use vstd::prelude::*;

verus! {

/// The length of an identifier as `fresh_id` writes it.
pub const ID_LENGTH: usize = 36;

/// Calls `uuid::Uuid::new_v4` and writes the identifier that it returns with
/// `to_string`. The identifier is drawn at random, so nothing is promised of
/// the result but its length: `to_string` writes the hyphenated form, 32
/// digits in five groups. Where the system gives no random bytes, `new_v4`
/// panics; no argument causes that.
#[verifier::external_body]
fn fresh_id() -> (id: String)
    ensures
        id@.len() == ID_LENGTH,
{
    Uuid::new_v4().to_string()
}

/// `before`, then `title`, then `after`.
pub open spec fn about(before: Seq<char>, title: Seq<char>, after: Seq<char>) -> Seq<char> {
    before + title + after
}

impl TaskError {
    /// The refusal in words.
    pub open spec fn message(self) -> Seq<char> {
        match self {
            TaskError::MissingTitle => "need task title"@,
            TaskError::DuplicateTitle => "duplicate title"@,
            TaskError::DuplicateId => "duplicate task id"@,
            TaskError::NotFound => "task not found"@,
            TaskError::AlreadyActive => "already active"@,
            TaskError::NotActive => "task not active"@,
            TaskError::NoDay => "logical day out of range"@,
        }
    }

    /// The refusal in words.
    pub fn to_message(&self) -> (text: String)
        ensures
            text@ == self.message(),
    {
        match self {
            TaskError::MissingTitle => String::from_str("need task title"),
            TaskError::DuplicateTitle => String::from_str("duplicate title"),
            TaskError::DuplicateId => String::from_str("duplicate task id"),
            TaskError::NotFound => String::from_str("task not found"),
            TaskError::AlreadyActive => String::from_str("already active"),
            TaskError::NotActive => String::from_str("task not active"),
            TaskError::NoDay => String::from_str("logical day out of range"),
        }
    }
}

/// `before`, then `title`, then `after`.
fn say_about(before: &str, title: &str, after: &str) -> (text: String)
    ensures
        text@ == about(before@, title@, after@),
{
    let mut text = String::from_str(before);
    text.append(title);
    text.append(after);
    text
}

/// The title that a command names: its words from the second on.
pub open spec fn title_of(parts: Seq<Seq<char>>) -> Seq<char> {
    joined_from(parts, 1)
}

/// The day on which `/todo` creates its task: the date that its second word
/// gives, or else today.
pub open spec fn todo_day(today: Seq<char>, date: Option<Seq<char>>) -> Seq<char> {
    match date {
        Some(day) => day,
        None => today,
    }
}

/// The title of the task that `/todo` creates: the words behind the date, or
/// behind the command where no date is given.
pub open spec fn todo_title(parts: Seq<Seq<char>>, date: Option<Seq<char>>) -> Seq<char> {
    match date {
        Some(_) => joined_from(parts, 2),
        None => joined_from(parts, 1),
    }
}

/// What `/todo` answers.
pub open spec fn todo_reply(error: Option<TaskError>) -> Result<Seq<char>, Seq<char>> {
    match error {
        None => accepted("added"@),
        Some(e) => refused(e.message()),
    }
}

/// What `/doing` answers.
pub open spec fn doing_reply(r: Result<TaskView, TaskError>) -> Result<Seq<char>, Seq<char>> {
    match r {
        Ok(_) => accepted("task active"@),
        Err(e) => refused(e.message()),
    }
}

/// What `/done` answers.
pub open spec fn done_reply(r: Result<TaskView, TaskError>) -> Result<Seq<char>, Seq<char>> {
    match r {
        Ok(_) => accepted("task moved to done"@),
        Err(e) => refused(e.message()),
    }
}

/// What `/break` answers about the task `title`.
pub open spec fn break_reply(error: Option<TaskError>, title: Seq<char>) -> Result<
    Seq<char>,
    Seq<char>,
> {
    match error {
        None => accepted("task paused"@),
        Some(TaskError::NotActive) => refused(
            about("Task '"@, title, "' found, but it's not currently 'doing'."@),
        ),
        Some(_) => refused(about("Task '"@, title, "' not found in the to-do list."@)),
    }
}

/// What `/deleteT` answers about the task `title`.
pub open spec fn delete_reply(error: Option<TaskError>, title: Seq<char>) -> Result<
    Seq<char>,
    Seq<char>,
> {
    match error {
        None => accepted(about("Task '"@, title, "' deleted."@)),
        Some(_) => refused(about("Task '"@, title, "' not found for deletion."@)),
    }
}

/// The value of what `create_task` returns.
pub open spec fn created_view(r: Result<Task, String>) -> Result<TaskView, Seq<char>> {
    match r {
        Ok(task) => Ok(task@),
        Err(text) => Err(text@),
    }
}

/// `create_task` did what `Engine::create` does with the day `day` and the
/// identifier `id`, and answered with the task or with the refusal in words.
pub open spec fn created_on(
    before: EngineView,
    after: EngineView,
    r: Result<TaskView, Seq<char>>,
    day: Seq<char>,
    title: Seq<char>,
    state_id: Option<Seq<char>>,
    id: Seq<char>,
) -> bool {
    &&& after == before.created(day, title, state_id, id)
    &&& r == match before.create_error(day, title, id) {
        None => Ok::<TaskView, Seq<char>>(new_task(day, title, state_id, id)),
        Some(e) => Err::<TaskView, Seq<char>>(e.message()),
    }
}

/// `/todo` did what `Engine::create` does with the identifier `id`, today
/// being `today`.
pub open spec fn todo_on(
    before: EngineView,
    after: EngineView,
    reply: Result<Seq<char>, Seq<char>>,
    parts: Seq<Seq<char>>,
    today: Seq<char>,
    id: Seq<char>,
    date: Option<Seq<char>>,
) -> bool {
    let day = todo_day(today, date);
    let title = todo_title(parts, date);
    &&& after == before.created(day, title, None, id)
    &&& reply == todo_reply(before.create_error(day, title, id))
}

/// `/doing` did what `Engine::activate` does on the day `day`.
pub open spec fn doing_on(
    before: EngineView,
    after: EngineView,
    reply: Result<Seq<char>, Seq<char>>,
    parts: Seq<Seq<char>>,
    day: Seq<char>,
) -> bool {
    &&& after == before.activated(day, title_of(parts))
    &&& reply == doing_reply(before.activate_result(day, title_of(parts)))
}

/// `/done` did what `Engine::complete` does on the day `day`.
pub open spec fn done_on(
    before: EngineView,
    after: EngineView,
    reply: Result<Seq<char>, Seq<char>>,
    parts: Seq<Seq<char>>,
    day: Seq<char>,
) -> bool {
    &&& after == before.completed(day, title_of(parts))
    &&& reply == done_reply(before.complete_result(day, title_of(parts)))
}

/// `/break` did what `Engine::deactivate` does on the day `day`.
pub open spec fn break_on(
    before: EngineView,
    after: EngineView,
    reply: Result<Seq<char>, Seq<char>>,
    parts: Seq<Seq<char>>,
    day: Seq<char>,
) -> bool {
    &&& after == before.deactivated(day, title_of(parts))
    &&& reply == break_reply(before.deactivate_error(day, title_of(parts)), title_of(parts))
}

/// `/deleteT` did what `Engine::delete` does on the day `day`.
pub open spec fn delete_on(
    before: EngineView,
    after: EngineView,
    reply: Result<Seq<char>, Seq<char>>,
    parts: Seq<Seq<char>>,
    day: Seq<char>,
) -> bool {
    &&& after == before.deleted(day, title_of(parts))
    &&& reply == delete_reply(before.delete_error(day, title_of(parts)), title_of(parts))
}

/// What `create_task` does with a title that is not blank: what
/// `Engine::create` does on the current logical day, with an identifier of
/// `ID_LENGTH` characters.
pub open spec fn create_did(
    before: EngineView,
    after: EngineView,
    r: Result<TaskView, Seq<char>>,
    title: Seq<char>,
    state_id: Option<Seq<char>>,
) -> bool {
    exists|day: Seq<char>, id: Seq<char>|
        today_key_of(Some(day), 0) && id.len() == ID_LENGTH && #[trigger] created_on(
            before,
            after,
            r,
            day,
            title,
            state_id,
            id,
        )
}

/// What `/todo` does: it is refused without a second word; or it does what
/// `Engine::create` does, on the current logical day or on the day that the
/// second word gives, with an identifier of `ID_LENGTH` characters.
pub open spec fn todo_did(
    before: EngineView,
    after: EngineView,
    reply: Result<Seq<char>, Seq<char>>,
    parts: Seq<Seq<char>>,
) -> bool {
    if parts.len() < 2 {
        after == before && reply == refused(TaskError::MissingTitle.message())
    } else {
        exists|today: Seq<char>, id: Seq<char>|
            today_key_of(Some(today), 0) && id.len() == ID_LENGTH && #[trigger] todo_on(
                before,
                after,
                reply,
                parts,
                today,
                id,
                parsed_date(parts[1]),
            )
    }
}

/// What `/doing` does: it is refused without a title; or for want of a
/// logical day `days_offset` days ago, which the current one and the
/// `DAYS_BACK_MAX` days before it never want; or it does what
/// `Engine::activate` does on the logical day `days_offset` days ago.
pub open spec fn doing_did(
    before: EngineView,
    after: EngineView,
    reply: Result<Seq<char>, Seq<char>>,
    parts: Seq<Seq<char>>,
    days_offset: int,
) -> bool {
    if parts.len() < 2 {
        after == before && reply == refused(TaskError::MissingTitle.message())
    } else {
        ||| today_key_of(None, days_offset) && after == before && reply == refused(
            TaskError::NoDay.message(),
        )
        ||| exists|day: Seq<char>|
            today_key_of(Some(day), days_offset) && #[trigger] doing_on(
                before,
                after,
                reply,
                parts,
                day,
            )
    }
}

/// What `/done` does: it is refused without a title; or for want of a
/// logical day `days_offset` days ago, which the current one and the
/// `DAYS_BACK_MAX` days before it never want; or it does what
/// `Engine::complete` does on the logical day `days_offset` days ago.
pub open spec fn done_did(
    before: EngineView,
    after: EngineView,
    reply: Result<Seq<char>, Seq<char>>,
    parts: Seq<Seq<char>>,
    days_offset: int,
) -> bool {
    if parts.len() < 2 {
        after == before && reply == refused(TaskError::MissingTitle.message())
    } else {
        ||| today_key_of(None, days_offset) && after == before && reply == refused(
            TaskError::NoDay.message(),
        )
        ||| exists|day: Seq<char>|
            today_key_of(Some(day), days_offset) && #[trigger] done_on(
                before,
                after,
                reply,
                parts,
                day,
            )
    }
}

/// What `/break` does: it is refused without a title; or it does what
/// `Engine::deactivate` does on the current logical day.
pub open spec fn break_did(
    before: EngineView,
    after: EngineView,
    reply: Result<Seq<char>, Seq<char>>,
    parts: Seq<Seq<char>>,
) -> bool {
    if parts.len() < 2 {
        after == before && reply == refused(TaskError::MissingTitle.message())
    } else {
        exists|day: Seq<char>|
            today_key_of(Some(day), 0) && #[trigger] break_on(before, after, reply, parts, day)
    }
}

/// What `/deleteT` does: it is refused without a title; or it does what
/// `Engine::delete` does on the current logical day.
pub open spec fn delete_did(
    before: EngineView,
    after: EngineView,
    reply: Result<Seq<char>, Seq<char>>,
    parts: Seq<Seq<char>>,
) -> bool {
    if parts.len() < 2 {
        after == before && reply == refused(TaskError::MissingTitle.message())
    } else {
        exists|day: Seq<char>|
            today_key_of(Some(day), 0) && #[trigger] delete_on(before, after, reply, parts, day)
    }
}

/// Creates a task with the identifier `id` on `day`, as `Engine::create`
/// does, and puts a refusal in words.
pub fn create_task_on(
    engine: &mut Engine,
    day: &str,
    title: String,
    state_id: Option<String>,
    id: String,
) -> (r: Result<Task, String>)
    requires
        old(engine).wf(),
    ensures
        final(engine).wf(),
        created_on(
            old(engine)@,
            final(engine)@,
            created_view(r),
            day@,
            title@,
            text_option(state_id),
            id@,
        ),
{
    match engine.create(day, title.as_str(), state_id, id) {
        Ok(task) => Ok(task),
        Err(e) => Err(e.to_message()),
    }
}

/// Creates a task on the current logical day, with a fresh identifier. A
/// blank title is refused before the clock is read, and nothing changes.
pub fn create_task(engine: &mut Engine, title: String, state_id: Option<String>) -> (r: Result<
    Task,
    String,
>)
    requires
        old(engine).wf(),
    ensures
        final(engine).wf(),
        crate::text::blank(title@) ==> final(engine)@ == old(engine)@ && created_view(r) == Err::<
            TaskView,
            Seq<char>,
        >(TaskError::MissingTitle.message()),
        !crate::text::blank(title@) ==> create_did(
            old(engine)@,
            final(engine)@,
            created_view(r),
            title@,
            text_option(state_id),
        ),
{
    if crate::text::is_blank(title.as_str()) {
        return Err(TaskError::MissingTitle.to_message());
    }
    let day = current_day_key();
    let id = fresh_id();
    create_task_on(engine, day.as_str(), title, state_id, id)
}

/// `/todo` with the clock read, the identifier drawn and the second word
/// read as a date. Without a second word the command is refused and nothing
/// changes. Otherwise the task is created on the day that the second word
/// gives, under the title behind it, or else today under the title behind the
/// command.
pub fn command_todo_on(
    engine: &mut Engine,
    parts: &Vec<String>,
    today: &str,
    id: String,
    date: Option<String>,
) -> (r: Result<String, String>)
    requires
        old(engine).wf(),
    ensures
        final(engine).wf(),
        parts.len() < 2 ==> final(engine)@ == old(engine)@ && reply_view(r) == refused(
            TaskError::MissingTitle.message(),
        ),
        parts.len() >= 2 ==> todo_on(
            old(engine)@,
            final(engine)@,
            reply_view(r),
            texts(parts@),
            today@,
            id@,
            text_option(date),
        ),
{
    if parts.len() < 2 {
        return Err(TaskError::MissingTitle.to_message());
    }
    let created = match date {
        Some(day) => {
            let title = join_from(parts, 2);
            engine.create(day.as_str(), title.as_str(), None, id)
        },
        None => {
            let title = join_from(parts, 1);
            engine.create(today, title.as_str(), None, id)
        },
    };
    match created {
        Ok(_) => Ok(String::from_str("added")),
        Err(e) => Err(e.to_message()),
    }
}

/// `/todo`: creates a task today, or on the day that the second word gives
/// where it is a date.
pub fn command_todo(engine: &mut Engine, parts: &Vec<String>) -> (r: Result<String, String>)
    requires
        old(engine).wf(),
    ensures
        final(engine).wf(),
        todo_did(old(engine)@, final(engine)@, reply_view(r), texts(parts@)),
{
    if parts.len() < 2 {
        return Err(TaskError::MissingTitle.to_message());
    }
    let today = current_day_key();
    let date = try_parse_date(parts[1].as_str());
    let id = fresh_id();
    command_todo_on(engine, parts, today.as_str(), id, date)
}

/// `/doing` on the day `day`. Without a title the command is refused and
/// nothing changes. Otherwise the task with the title is activated, as
/// `Engine::activate` does.
pub fn command_doing_on(engine: &mut Engine, parts: &Vec<String>, day: &str) -> (r: Result<
    String,
    String,
>)
    requires
        old(engine).wf(),
    ensures
        final(engine).wf(),
        parts.len() < 2 ==> final(engine)@ == old(engine)@ && reply_view(r) == refused(
            TaskError::MissingTitle.message(),
        ),
        parts.len() >= 2 ==> doing_on(
            old(engine)@,
            final(engine)@,
            reply_view(r),
            texts(parts@),
            day@,
        ),
{
    if parts.len() < 2 {
        return Err(TaskError::MissingTitle.to_message());
    }
    let title = join_from(parts, 1);
    match engine.activate(day, title.as_str()) {
        Ok(_) => Ok(String::from_str("task active")),
        Err(e) => Err(e.to_message()),
    }
}

/// `/doing`: activates a task of the current logical day, or of the one
/// `days_offset` days ago. The day is found for the current logical day and
/// for the `DAYS_BACK_MAX` days before it; further back, and for days to
/// come, the command is refused where the calendar does not reach that far.
pub fn command_doing(engine: &mut Engine, parts: &Vec<String>, days_offset: Option<i64>) -> (r:
    Result<String, String>)
    requires
        old(engine).wf(),
    ensures
        final(engine).wf(),
        doing_did(
            old(engine)@,
            final(engine)@,
            reply_view(r),
            texts(parts@),
            offset_or_zero(days_offset),
        ),
{
    if parts.len() < 2 {
        return Err(TaskError::MissingTitle.to_message());
    }
    match get_current_logical_day_key(days_offset) {
        Some(day) => command_doing_on(engine, parts, day.as_str()),
        None => Err(TaskError::NoDay.to_message()),
    }
}

/// `/done` on the day `day`. Without a title the command is refused and
/// nothing changes. Otherwise the task with the title is finished, as
/// `Engine::complete` does.
pub fn command_done_on(engine: &mut Engine, parts: &Vec<String>, day: &str) -> (r: Result<
    String,
    String,
>)
    requires
        old(engine).wf(),
    ensures
        final(engine).wf(),
        parts.len() < 2 ==> final(engine)@ == old(engine)@ && reply_view(r) == refused(
            TaskError::MissingTitle.message(),
        ),
        parts.len() >= 2 ==> done_on(
            old(engine)@,
            final(engine)@,
            reply_view(r),
            texts(parts@),
            day@,
        ),
{
    if parts.len() < 2 {
        return Err(TaskError::MissingTitle.to_message());
    }
    let title = join_from(parts, 1);
    match engine.complete(day, title.as_str()) {
        Ok(_) => Ok(String::from_str("task moved to done")),
        Err(e) => Err(e.to_message()),
    }
}

/// `/done`: finishes a task of the current logical day, or of the one
/// `days_offset` days ago. The day is found for the current logical day and
/// for the `DAYS_BACK_MAX` days before it; further back, and for days to
/// come, the command is refused where the calendar does not reach that far.
pub fn command_done(engine: &mut Engine, parts: &Vec<String>, days_offset: Option<i64>) -> (r:
    Result<String, String>)
    requires
        old(engine).wf(),
    ensures
        final(engine).wf(),
        done_did(
            old(engine)@,
            final(engine)@,
            reply_view(r),
            texts(parts@),
            offset_or_zero(days_offset),
        ),
{
    if parts.len() < 2 {
        return Err(TaskError::MissingTitle.to_message());
    }
    match get_current_logical_day_key(days_offset) {
        Some(day) => command_done_on(engine, parts, day.as_str()),
        None => Err(TaskError::NoDay.to_message()),
    }
}

/// `/break` on the day `day`. Without a title the command is refused and
/// nothing changes. Otherwise the work on the task with the title is stopped,
/// as `Engine::deactivate` does.
pub fn command_break_on(engine: &mut Engine, parts: &Vec<String>, day: &str) -> (r: Result<
    String,
    String,
>)
    requires
        old(engine).wf(),
    ensures
        final(engine).wf(),
        parts.len() < 2 ==> final(engine)@ == old(engine)@ && reply_view(r) == refused(
            TaskError::MissingTitle.message(),
        ),
        parts.len() >= 2 ==> break_on(
            old(engine)@,
            final(engine)@,
            reply_view(r),
            texts(parts@),
            day@,
        ),
{
    if parts.len() < 2 {
        return Err(TaskError::MissingTitle.to_message());
    }
    let title = join_from(parts, 1);
    match engine.deactivate(day, title.as_str()) {
        Ok(()) => Ok(String::from_str("task paused")),
        Err(TaskError::NotActive) => Err(
            say_about("Task '", title.as_str(), "' found, but it's not currently 'doing'."),
        ),
        Err(_) => Err(say_about("Task '", title.as_str(), "' not found in the to-do list.")),
    }
}

/// `/break`: stops the work on a task of the current logical day.
pub fn command_break(engine: &mut Engine, parts: &Vec<String>) -> (r: Result<String, String>)
    requires
        old(engine).wf(),
    ensures
        final(engine).wf(),
        break_did(old(engine)@, final(engine)@, reply_view(r), texts(parts@)),
{
    if parts.len() < 2 {
        return Err(TaskError::MissingTitle.to_message());
    }
    let day = current_day_key();
    command_break_on(engine, parts, day.as_str())
}

/// `/deleteT` on the day `day`. Without a title the command is refused and
/// nothing changes. Otherwise the task with the title is deleted, as
/// `Engine::delete` does.
#[allow(non_snake_case)]
pub fn command_deleteT_on(engine: &mut Engine, parts: &Vec<String>, day: &str) -> (r: Result<
    String,
    String,
>)
    requires
        old(engine).wf(),
    ensures
        final(engine).wf(),
        parts.len() < 2 ==> final(engine)@ == old(engine)@ && reply_view(r) == refused(
            TaskError::MissingTitle.message(),
        ),
        parts.len() >= 2 ==> delete_on(
            old(engine)@,
            final(engine)@,
            reply_view(r),
            texts(parts@),
            day@,
        ),
{
    if parts.len() < 2 {
        return Err(TaskError::MissingTitle.to_message());
    }
    let title = join_from(parts, 1);
    match engine.delete(day, title.as_str()) {
        Ok(()) => Ok(say_about("Task '", title.as_str(), "' deleted.")),
        Err(_) => Err(say_about("Task '", title.as_str(), "' not found for deletion.")),
    }
}

/// `/deleteT`: deletes a waiting task of the current logical day.
#[allow(non_snake_case)]
pub fn command_deleteT(engine: &mut Engine, parts: &Vec<String>) -> (r: Result<String, String>)
    requires
        old(engine).wf(),
    ensures
        final(engine).wf(),
        delete_did(old(engine)@, final(engine)@, reply_view(r), texts(parts@)),
{
    if parts.len() < 2 {
        return Err(TaskError::MissingTitle.to_message());
    }
    let day = current_day_key();
    command_deleteT_on(engine, parts, day.as_str())
}

/// `/completed`: always answers `success`.
pub fn command_completed() -> (r: Result<String, String>)
    ensures
        reply_view(r) == accepted("success"@),
{
    Ok(String::from_str("success"))
}

/// Copies of the tasks of `day` that wait or are worked on, or of its
/// finished ones, in their order. It always succeeds.
pub fn get_tasks(engine: &Engine, day: String, done: bool) -> (r: Result<Vec<Task>, String>)
    requires
        engine.wf(),
    ensures
        r is Ok,
        task_views(r->Ok_0@) == (if done {
            bucket_of(engine@.days, day@).done
        } else {
            bucket_of(engine@.days, day@).todo
        }),
{
    Ok(engine.list(day.as_str(), done))
}

} // verus!
