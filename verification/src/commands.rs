//! The command palette: a line of text is split into words, the first word
//! names the command, and the command is carried out on the engine and the
//! timer, or handed back where it needs the settings or the file system.

use crate::calendar::{clock_shaped, local_clock_text};
use crate::engine::Engine;
use crate::fileaccess::{path_view, process_file, user_path};
use crate::model::EngineView;
use crate::pomodoro::{
    command_pause_pomodoro, command_resume_pomodoro, command_start_pomodoro,
    command_stop_pomodoro, empty_refusal, not_initialized, resume_refusal, slot_paused,
    slot_resumed, slot_started, slot_stopped, slot_view, slot_wf, start_refusal, PayloadView,
    PomodoroTimer, TimerUpdatePayload, TimerView,
};
use crate::reply::{accepted, refused, reply_unless, reply_view};
use crate::tasks::{
    break_did, command_break, command_completed, command_deleteT, command_doing, command_done,
    command_todo, delete_did, doing_did, done_did, todo_did,
};
use crate::text::{appended, join_from, joined_from, same_text, split_words, texts, words};
use crate::theme::{command_theme, theme_step, ThemeStep, ThemeStepView};
use vstd::prelude::*;

verus! {

/// `ping`: always answers `pong!`.
pub fn command_ping() -> (r: Result<String, String>)
    ensures
        reply_view(r) == accepted("pong!"@),
{
    Ok(String::from_str("pong!"))
}

/// `date`: answers with the current date and time, by the system clock in
/// the local time zone, written year-month-day hour:minute:second.
pub fn command_date() -> (r: Result<String, String>)
    ensures
        r is Ok,
        clock_shaped(r->Ok_0@),
{
    Ok(local_clock_text())
}

/// `/wq`: always answers `file saved!`.
pub fn command_wq() -> (r: Result<String, String>)
    ensures
        reply_view(r) == accepted("file saved!"@),
{
    Ok(String::from_str("file saved!"))
}

/// The path that `/code` and `/write` name: the words behind the command.
pub fn command_code(parts: &Vec<String>) -> (r: Result<String, String>)
    ensures
        path_view(r) == user_path(joined_from(texts(parts@), 1)),
{
    let name = join_from(parts, 1);
    process_file(name.as_str())
}

/// The commands of the palette.
#[derive(Debug, Clone, Copy, PartialEq, Eq, Structural)]
pub enum PaletteCommand {
    Ping,
    Date,
    Theme,
    Todo,
    Doing,
    Done,
    Break,
    DeleteT,
    Completed,
    Start,
    Pause,
    Resume,
    Stop,
    Code,
    Wq,
    Unknown,
}

/// The command that a first word names.
pub open spec fn command_kind(word: Seq<char>) -> PaletteCommand {
    if word == "ping"@ {
        PaletteCommand::Ping
    } else if word == "date"@ {
        PaletteCommand::Date
    } else if word == "/theme"@ {
        PaletteCommand::Theme
    } else if word == "/todo"@ {
        PaletteCommand::Todo
    } else if word == "/doing"@ {
        PaletteCommand::Doing
    } else if word == "/done"@ {
        PaletteCommand::Done
    } else if word == "/break"@ {
        PaletteCommand::Break
    } else if word == "/deleteT"@ {
        PaletteCommand::DeleteT
    } else if word == "/completed"@ {
        PaletteCommand::Completed
    } else if word == "/start"@ {
        PaletteCommand::Start
    } else if word == "/pause"@ {
        PaletteCommand::Pause
    } else if word == "/resume"@ {
        PaletteCommand::Resume
    } else if word == "/stop"@ {
        PaletteCommand::Stop
    } else if word == "/code"@ || word == "/write"@ {
        PaletteCommand::Code
    } else if word == "/wq"@ {
        PaletteCommand::Wq
    } else {
        PaletteCommand::Unknown
    }
}

/// The command that a first word names.
pub fn classify(word: &str) -> (kind: PaletteCommand)
    ensures
        kind == command_kind(word@),
{
    if same_text(word, "ping") {
        PaletteCommand::Ping
    } else if same_text(word, "date") {
        PaletteCommand::Date
    } else if same_text(word, "/theme") {
        PaletteCommand::Theme
    } else if same_text(word, "/todo") {
        PaletteCommand::Todo
    } else if same_text(word, "/doing") {
        PaletteCommand::Doing
    } else if same_text(word, "/done") {
        PaletteCommand::Done
    } else if same_text(word, "/break") {
        PaletteCommand::Break
    } else if same_text(word, "/deleteT") {
        PaletteCommand::DeleteT
    } else if same_text(word, "/completed") {
        PaletteCommand::Completed
    } else if same_text(word, "/start") {
        PaletteCommand::Start
    } else if same_text(word, "/pause") {
        PaletteCommand::Pause
    } else if same_text(word, "/resume") {
        PaletteCommand::Resume
    } else if same_text(word, "/stop") {
        PaletteCommand::Stop
    } else if same_text(word, "/code") || same_text(word, "/write") {
        PaletteCommand::Code
    } else if same_text(word, "/wq") {
        PaletteCommand::Wq
    } else {
        PaletteCommand::Unknown
    }
}

/// What remains to be done outside once a command has answered.
pub enum Effect {
    /// Nothing.
    Nothing,
    /// The task store changed and is to be saved.
    SaveTasks,
    /// A task was finished: the store is to be saved and the finished task
    /// counted.
    SaveTasksAndCount,
    /// The timer counts down: the ticking loop is to run, if it does not yet.
    RunTimer,
    /// The timer was stopped: the update is to be published.
    Publish(TimerUpdatePayload),
}

/// The mathematical value of an `Effect`.
pub enum EffectView {
    Nothing,
    SaveTasks,
    SaveTasksAndCount,
    RunTimer,
    Publish(PayloadView),
}

impl View for Effect {
    type V = EffectView;

    open spec fn view(&self) -> EffectView {
        match self {
            Effect::Nothing => EffectView::Nothing,
            Effect::SaveTasks => EffectView::SaveTasks,
            Effect::SaveTasksAndCount => EffectView::SaveTasksAndCount,
            Effect::RunTimer => EffectView::RunTimer,
            Effect::Publish(update) => EffectView::Publish(update@),
        }
    }
}

/// What became of a line given to the palette.
pub enum PaletteOutcome {
    /// The command was carried out or refused: the answer, and what remains
    /// to be done outside.
    Reply { reply: Result<String, String>, effect: Effect },
    /// The line is a `/theme` command: the settings are needed to go on.
    Theme(ThemeStep),
    /// The line names a file to open: its path below the home directory, or
    /// the refusal of the name.
    File(Result<String, String>),
}

/// The mathematical value of a `PaletteOutcome`.
pub enum OutcomeView {
    Reply { reply: Result<Seq<char>, Seq<char>>, effect: EffectView },
    Theme(ThemeStepView),
    File(Result<Seq<char>, Seq<char>>),
}

impl View for PaletteOutcome {
    type V = OutcomeView;

    open spec fn view(&self) -> OutcomeView {
        match self {
            PaletteOutcome::Reply { reply, effect } => OutcomeView::Reply {
                reply: reply_view(*reply),
                effect: effect@,
            },
            PaletteOutcome::Theme(step) => OutcomeView::Theme(step@),
            PaletteOutcome::File(path) => OutcomeView::File(path_view(*path)),
        }
    }
}

/// An answer after which nothing remains to be done.
pub open spec fn plain(reply: Result<Seq<char>, Seq<char>>) -> OutcomeView {
    OutcomeView::Reply { reply, effect: EffectView::Nothing }
}

/// An answer after which `effect` remains to be done if the command was
/// carried out, and nothing if it was refused.
pub open spec fn with_effect(reply: Result<Seq<char>, Seq<char>>, effect: EffectView) -> OutcomeView {
    OutcomeView::Reply {
        reply,
        effect: if reply is Ok {
            effect
        } else {
            EffectView::Nothing
        },
    }
}

/// What the palette does with a line whose words are `parts`, to the engine
/// and to the timer, and what it hands back.
pub open spec fn palette_did(
    engine_before: EngineView,
    engine_after: EngineView,
    timer_before: Option<TimerView>,
    timer_after: Option<TimerView>,
    parts: Seq<Seq<char>>,
    outcome: OutcomeView,
) -> bool {
    if parts.len() == 0 {
        &&& engine_after == engine_before
        &&& timer_after == timer_before
        &&& outcome == plain(refused("empty command received"@))
    } else {
        match command_kind(parts[0]) {
            PaletteCommand::Ping => {
                &&& engine_after == engine_before
                &&& timer_after == timer_before
                &&& outcome == plain(accepted("pong!"@))
            },
            PaletteCommand::Date => {
                &&& engine_after == engine_before
                &&& timer_after == timer_before
                &&& outcome matches OutcomeView::Reply { reply, effect }
                &&& reply matches Ok(text)
                &&& clock_shaped(text)
                &&& effect is Nothing
            },
            PaletteCommand::Theme => {
                &&& engine_after == engine_before
                &&& timer_after == timer_before
                &&& outcome == OutcomeView::Theme(theme_step(parts))
            },
            PaletteCommand::Todo => {
                &&& timer_after == timer_before
                &&& outcome matches OutcomeView::Reply { reply, effect }
                &&& todo_did(engine_before, engine_after, reply, parts)
                &&& outcome == with_effect(reply, EffectView::SaveTasks)
            },
            PaletteCommand::Doing => {
                &&& timer_after == timer_before
                &&& outcome matches OutcomeView::Reply { reply, effect }
                &&& doing_did(engine_before, engine_after, reply, parts, 0)
                &&& outcome == with_effect(reply, EffectView::SaveTasks)
            },
            PaletteCommand::Done => {
                &&& timer_after == timer_before
                &&& outcome matches OutcomeView::Reply { reply, effect }
                &&& done_did(engine_before, engine_after, reply, parts, 0)
                &&& outcome == with_effect(reply, EffectView::SaveTasksAndCount)
            },
            PaletteCommand::Break => {
                &&& timer_after == timer_before
                &&& outcome matches OutcomeView::Reply { reply, effect }
                &&& break_did(engine_before, engine_after, reply, parts)
                &&& outcome == with_effect(reply, EffectView::SaveTasks)
            },
            PaletteCommand::DeleteT => {
                &&& timer_after == timer_before
                &&& outcome matches OutcomeView::Reply { reply, effect }
                &&& delete_did(engine_before, engine_after, reply, parts)
                &&& outcome == with_effect(reply, EffectView::SaveTasks)
            },
            PaletteCommand::Completed => {
                &&& engine_after == engine_before
                &&& timer_after == timer_before
                &&& outcome == plain(accepted("success"@))
            },
            PaletteCommand::Start => {
                &&& engine_after == engine_before
                &&& timer_after == slot_started(timer_before)
                &&& outcome == with_effect(
                    reply_unless(start_refusal(timer_before), "pomodoro started"@),
                    EffectView::RunTimer,
                )
            },
            PaletteCommand::Resume => {
                &&& engine_after == engine_before
                &&& timer_after == slot_resumed(timer_before)
                &&& outcome == with_effect(
                    reply_unless(resume_refusal(timer_before), "pomodoro resumed"@),
                    EffectView::RunTimer,
                )
            },
            PaletteCommand::Pause => {
                &&& engine_after == engine_before
                &&& timer_after == slot_paused(timer_before)
                &&& outcome == plain(
                    reply_unless(empty_refusal(timer_before), "pomodoro paused"@),
                )
            },
            PaletteCommand::Stop => {
                &&& engine_after == engine_before
                &&& timer_after == slot_stopped(timer_before)
                &&& outcome == (match timer_before {
                    Some(timer) => OutcomeView::Reply {
                        reply: accepted("pomodoro stopped"@),
                        effect: EffectView::Publish(timer.stop_payload()),
                    },
                    None => plain(refused(not_initialized())),
                })
            },
            PaletteCommand::Code => {
                &&& engine_after == engine_before
                &&& timer_after == timer_before
                &&& outcome == OutcomeView::File(user_path(joined_from(parts, 1)))
            },
            PaletteCommand::Wq => {
                &&& engine_after == engine_before
                &&& timer_after == timer_before
                &&& outcome == plain(accepted("file saved!"@))
            },
            PaletteCommand::Unknown => {
                &&& engine_after == engine_before
                &&& timer_after == timer_before
                &&& outcome == plain(refused("unknown command: "@ + parts[0]))
            },
        }
    }
}

/// An answer that leaves `effect` to be done if it is not a refusal.
fn reply_with(reply: Result<String, String>, effect: Effect) -> (outcome: PaletteOutcome)
    ensures
        outcome@ == with_effect(reply_view(reply), effect@),
{
    match reply {
        Ok(text) => PaletteOutcome::Reply { reply: Ok(text), effect },
        Err(text) => PaletteOutcome::Reply { reply: Err(text), effect: Effect::Nothing },
    }
}

/// Carries out one line given to the palette. The line is split into words
/// at white space; the first word names the command; the other words are
/// its arguments.
pub fn handle_palette_command(
    engine: &mut Engine,
    timer: &mut Option<PomodoroTimer>,
    command: String,
) -> (outcome: PaletteOutcome)
    requires
        old(engine).wf(),
        slot_wf(*old(timer)),
    ensures
        final(engine).wf(),
        slot_wf(*final(timer)),
        palette_did(
            old(engine)@,
            final(engine)@,
            slot_view(*old(timer)),
            slot_view(*final(timer)),
            words(command@),
            outcome@,
        ),
{
    let parts = split_words(command.as_str());
    if parts.len() == 0 {
        return PaletteOutcome::Reply {
            reply: Err(String::from_str("empty command received")),
            effect: Effect::Nothing,
        };
    }
    match classify(parts[0].as_str()) {
        PaletteCommand::Ping => PaletteOutcome::Reply {
            reply: command_ping(),
            effect: Effect::Nothing,
        },
        PaletteCommand::Date => PaletteOutcome::Reply {
            reply: command_date(),
            effect: Effect::Nothing,
        },
        PaletteCommand::Theme => PaletteOutcome::Theme(command_theme(&parts)),
        PaletteCommand::Todo => reply_with(command_todo(engine, &parts), Effect::SaveTasks),
        PaletteCommand::Doing => reply_with(command_doing(engine, &parts, None), Effect::SaveTasks),
        PaletteCommand::Done => reply_with(
            command_done(engine, &parts, None),
            Effect::SaveTasksAndCount,
        ),
        PaletteCommand::Break => reply_with(command_break(engine, &parts), Effect::SaveTasks),
        PaletteCommand::DeleteT => reply_with(command_deleteT(engine, &parts), Effect::SaveTasks),
        PaletteCommand::Completed => PaletteOutcome::Reply {
            reply: command_completed(),
            effect: Effect::Nothing,
        },
        PaletteCommand::Start => reply_with(command_start_pomodoro(timer), Effect::RunTimer),
        PaletteCommand::Resume => reply_with(command_resume_pomodoro(timer), Effect::RunTimer),
        PaletteCommand::Pause => PaletteOutcome::Reply {
            reply: command_pause_pomodoro(timer),
            effect: Effect::Nothing,
        },
        PaletteCommand::Stop => match command_stop_pomodoro(timer) {
            Ok((text, update)) => PaletteOutcome::Reply {
                reply: Ok(text),
                effect: Effect::Publish(update),
            },
            Err(text) => PaletteOutcome::Reply { reply: Err(text), effect: Effect::Nothing },
        },
        PaletteCommand::Code => PaletteOutcome::File(command_code(&parts)),
        PaletteCommand::Wq => PaletteOutcome::Reply { reply: command_wq(), effect: Effect::Nothing },
        PaletteCommand::Unknown => PaletteOutcome::Reply {
            reply: Err(appended("unknown command: ", parts[0].as_str())),
            effect: Effect::Nothing,
        },
    }
}

} // verus!
