//! The Pomodoro phase scheduler: a state machine over work and break phases
//! that is advanced one tick at a time by whoever owns the clock.

use crate::reply::{refusal_of, reply_unless, reply_view};
use vstd::prelude::*;

verus! {

/// The phase a timer is in.
#[derive(Debug, Clone, Copy, PartialEq, Eq, Structural)]
pub enum TimerState {
    Idle,
    Running,
    Paused,
    ShortBreak,
    LongBreak,
}

/// What subscribers are told after a change of phase or of remaining time.
pub struct TimerUpdatePayload {
    pub state: String,
    pub remaining_time: u64,
    pub interval_time: u64,
}

/// The mathematical value of a `TimerUpdatePayload`.
pub struct PayloadView {
    pub state: Seq<char>,
    pub remaining_time: nat,
    pub interval_time: nat,
}

impl View for TimerUpdatePayload {
    type V = PayloadView;

    open spec fn view(&self) -> PayloadView {
        PayloadView {
            state: self.state@,
            remaining_time: self.remaining_time as nat,
            interval_time: self.interval_time as nat,
        }
    }
}

impl Clone for TimerUpdatePayload {
    fn clone(&self) -> (r: Self)
        ensures
            r@ == self@,
    {
        TimerUpdatePayload {
            state: self.state.clone(),
            remaining_time: self.remaining_time,
            interval_time: self.interval_time,
        }
    }
}

/// The name under which a phase is published: its variant in lower case.
pub open spec fn state_name(state: TimerState) -> Seq<char> {
    match state {
        TimerState::Idle => "idle"@,
        TimerState::Running => "running"@,
        TimerState::Paused => "paused"@,
        TimerState::ShortBreak => "shortbreak"@,
        TimerState::LongBreak => "longbreak"@,
    }
}

impl TimerState {
    /// The published name of this phase.
    pub fn name(&self) -> (r: String)
        ensures
            r@ == state_name(*self),
    {
        match self {
            TimerState::Idle => String::from_str("idle"),
            TimerState::Running => String::from_str("running"),
            TimerState::Paused => String::from_str("paused"),
            TimerState::ShortBreak => String::from_str("shortbreak"),
            TimerState::LongBreak => String::from_str("longbreak"),
        }
    }

    /// Whether time runs down in this phase.
    pub open spec fn counts_down(self) -> bool {
        self is Running || self is ShortBreak || self is LongBreak
    }
}

/// The mathematical value of a `PomodoroTimer`.
pub struct TimerView {
    pub state: TimerState,
    pub last_active_state: Option<TimerState>,
    pub remaining_seconds: nat,
    pub current_session: nat,
    pub work_duration: nat,
    pub short_break_duration: nat,
    pub long_break_duration: nat,
    pub sessions_before_long_break: nat,
    pub interval_time: nat,
}

impl TimerView {
    /// How long a phase lasts. A paused timer has no duration of its own: it
    /// keeps the one of the phase it left.
    pub open spec fn duration_of(self, state: TimerState) -> nat {
        match state {
            TimerState::ShortBreak => self.short_break_duration,
            TimerState::LongBreak => self.long_break_duration,
            _ => self.work_duration,
        }
    }

    /// The invariant of the scheduler: a tick is one second, an idle timer
    /// shows a whole work phase, a phase never has more time left than it
    /// lasts, and a paused timer remembers the phase that it left.
    pub open spec fn wf(self) -> bool {
        &&& self.interval_time == 1
        &&& self.sessions_before_long_break > 0
        &&& self.current_session >= 1
        &&& self.state is Idle ==> self.remaining_seconds == self.work_duration
        &&& self.state.counts_down() ==> self.remaining_seconds <= self.duration_of(self.state)
        &&& self.state is Paused ==> {
            &&& self.last_active_state matches Some(left)
            &&& left.counts_down()
            &&& self.remaining_seconds <= self.duration_of(left)
        }
    }

    /// The break that follows the current work session: a long one after every
    /// `sessions_before_long_break`-th session.
    pub open spec fn break_due(self) -> TimerState {
        if self.current_session % self.sessions_before_long_break == 0 {
            TimerState::LongBreak
        } else {
            TimerState::ShortBreak
        }
    }

    /// The session counter after one more completed work phase. It stops at the
    /// largest value the counter can hold.
    pub open spec fn next_session(self) -> nat {
        if self.current_session < u32::MAX {
            self.current_session + 1
        } else {
            self.current_session
        }
    }

    /// The timer after `start` on an idle timer.
    pub open spec fn started(self) -> TimerView {
        TimerView { state: TimerState::Running, remaining_seconds: self.work_duration, ..self }
    }

    /// The timer after `pause`.
    pub open spec fn paused(self) -> TimerView {
        if self.state.counts_down() {
            TimerView { state: TimerState::Paused, last_active_state: Some(self.state), ..self }
        } else {
            self
        }
    }

    /// The timer after `resume` on a paused timer: back in the phase it left,
    /// with the time that was left.
    pub open spec fn resumed(self) -> TimerView {
        TimerView {
            state: match self.last_active_state {
                Some(left) => left,
                None => TimerState::Running,
            },
            last_active_state: None,
            ..self
        }
    }

    /// The timer after `stop`.
    pub open spec fn stopped(self) -> TimerView {
        TimerView {
            state: TimerState::Idle,
            remaining_seconds: self.work_duration,
            current_session: 1,
            ..self
        }
    }

    /// Whether a tick changes anything: it does not while idle or paused.
    pub open spec fn ticking(self) -> bool {
        self.state.counts_down()
    }

    /// Whether the next tick ends the current phase.
    pub open spec fn phase_ends(self) -> bool {
        self.ticking() && self.remaining_seconds <= self.interval_time
    }

    /// Whether the next tick completes a work session.
    pub open spec fn completes_session(self) -> bool {
        self.state is Running && self.remaining_seconds <= self.interval_time
    }

    /// The timer after one tick.
    pub open spec fn ticked(self) -> TimerView {
        if !self.ticking() {
            self
        } else if self.remaining_seconds > self.interval_time {
            TimerView {
                remaining_seconds: (self.remaining_seconds - self.interval_time) as nat,
                ..self
            }
        } else if self.state is Running {
            TimerView {
                state: self.break_due(),
                remaining_seconds: self.duration_of(self.break_due()),
                current_session: self.next_session(),
                ..self
            }
        } else {
            TimerView { state: TimerState::Running, remaining_seconds: self.work_duration, ..self }
        }
    }

    /// The timer after `n` ticks.
    pub open spec fn ticked_times(self, n: nat) -> TimerView
        decreases n,
    {
        if n == 0 {
            self
        } else {
            self.ticked_times((n - 1) as nat).ticked()
        }
    }

    /// What a tick publishes, where it publishes anything.
    pub open spec fn tick_payload(self) -> PayloadView {
        PayloadView {
            state: state_name(self.ticked().state),
            remaining_time: self.ticked().remaining_seconds,
            interval_time: self.interval_time,
        }
    }

    /// What `stop` publishes.
    pub open spec fn stop_payload(self) -> PayloadView {
        PayloadView { state: "idle"@, remaining_time: self.work_duration, interval_time: 0 }
    }
}

/// What one tick did: the update to publish, if the tick changed anything, and
/// whether it completed a work session.
pub struct TickOutcome {
    pub update: Option<TimerUpdatePayload>,
    pub session_completed: bool,
}

/// A Pomodoro timer. It holds no clock: `tick` is called once per interval.
pub struct PomodoroTimer {
    state: TimerState,
    last_active_state: Option<TimerState>,
    remaining_seconds: u64,
    current_session: u32,
    work_duration: u64,
    short_break_duration: u64,
    long_break_duration: u64,
    sessions_before_long_break: u32,
    interval_time: u64,
}

impl View for PomodoroTimer {
    type V = TimerView;

    closed spec fn view(&self) -> TimerView {
        TimerView {
            state: self.state,
            last_active_state: self.last_active_state,
            remaining_seconds: self.remaining_seconds as nat,
            current_session: self.current_session as nat,
            work_duration: self.work_duration as nat,
            short_break_duration: self.short_break_duration as nat,
            long_break_duration: self.long_break_duration as nat,
            sessions_before_long_break: self.sessions_before_long_break as nat,
            interval_time: self.interval_time as nat,
        }
    }
}

impl PomodoroTimer {
    /// An idle timer with work and short-break phases of five seconds, a long
    /// break of fifteen minutes after every fourth session, and a tick of one
    /// second.
    pub fn new() -> (timer: Self)
        ensures
            timer@.wf(),
            timer@ == fresh_timer(),
    {
        PomodoroTimer {
            state: TimerState::Idle,
            last_active_state: None,
            remaining_seconds: 5,
            current_session: 1,
            work_duration: 5,
            short_break_duration: 5,
            long_break_duration: 900,
            sessions_before_long_break: 4,
            interval_time: 1,
        }
    }

    /// An idle timer with the given phase lengths in seconds and a tick of one
    /// second; `None` where no session could ever be due a long break.
    pub fn with_durations(
        work: u64,
        short_break: u64,
        long_break: u64,
        sessions_before_long_break: u32,
    ) -> (timer: Option<Self>)
        ensures
            timer is Some <==> sessions_before_long_break > 0,
            timer matches Some(t) ==> t@.wf() && t@ == (TimerView {
                state: TimerState::Idle,
                last_active_state: None,
                remaining_seconds: work as nat,
                current_session: 1,
                work_duration: work as nat,
                short_break_duration: short_break as nat,
                long_break_duration: long_break as nat,
                sessions_before_long_break: sessions_before_long_break as nat,
                interval_time: 1,
            }),
    {
        if sessions_before_long_break == 0 {
            return None;
        }
        Some(
            PomodoroTimer {
                state: TimerState::Idle,
                last_active_state: None,
                remaining_seconds: work,
                current_session: 1,
                work_duration: work,
                short_break_duration: short_break,
                long_break_duration: long_break,
                sessions_before_long_break,
                interval_time: 1,
            },
        )
    }

    /// The current phase.
    pub fn state(&self) -> (r: TimerState)
        ensures
            r == self@.state,
    {
        self.state
    }

    /// The seconds left in the current phase.
    pub fn remaining_seconds(&self) -> (r: u64)
        ensures
            r == self@.remaining_seconds,
    {
        self.remaining_seconds
    }

    /// The number of the current work session, counted from one.
    pub fn current_session(&self) -> (r: u32)
        ensures
            r == self@.current_session,
    {
        self.current_session
    }

    /// Puts the timer into `state` with `seconds` left.
    fn boot_cycle(&mut self, state: TimerState, seconds: u64)
        ensures
            final(self)@ == (TimerView {
                state,
                remaining_seconds: seconds as nat,
                ..old(self)@
            }),
    {
        self.state = state;
        self.remaining_seconds = seconds;
    }

    /// Starts the first work phase. Only an idle timer can be started.
    pub fn start(&mut self) -> (r: Result<(), &'static str>)
        requires
            old(self)@.wf(),
        ensures
            final(self)@.wf(),
            old(self)@.state is Idle ==> r is Ok && final(self)@ == old(self)@.started(),
            !(old(self)@.state is Idle) ==> final(self)@ == old(self)@ && r is Err
                && r->Err_0@ == "timer already started; use resume()"@,
    {
        if self.state != TimerState::Idle {
            return Err("timer already started; use resume()");
        }
        self.boot_cycle(TimerState::Running, self.work_duration);
        Ok(())
    }

    /// Takes a paused timer back to the phase it left, with the time that was
    /// left in it.
    pub fn resume(&mut self) -> (r: Result<(), &'static str>)
        requires
            old(self)@.wf(),
        ensures
            final(self)@.wf(),
            old(self)@.state is Paused ==> r is Ok && final(self)@ == old(self)@.resumed(),
            !(old(self)@.state is Paused) ==> final(self)@ == old(self)@ && r is Err
                && r->Err_0@ == "timer is not paused"@,
    {
        if self.state != TimerState::Paused {
            return Err("timer is not paused");
        }
        let left = match self.last_active_state {
            Some(state) => state,
            None => TimerState::Running,
        };
        self.last_active_state = None;
        self.boot_cycle(left, self.remaining_seconds);
        Ok(())
    }

    /// Pauses a phase that counts down, remembering it; does nothing otherwise.
    pub fn pause(&mut self)
        requires
            old(self)@.wf(),
        ensures
            final(self)@.wf(),
            final(self)@ == old(self)@.paused(),
    {
        match self.state {
            TimerState::Running | TimerState::ShortBreak | TimerState::LongBreak => {
                self.last_active_state = Some(self.state);
                self.state = TimerState::Paused;
            },
            _ => {},
        }
    }

    /// Returns to idle from any phase, with a whole work phase on the clock and
    /// the session counter back at one. The result is the update to publish.
    pub fn stop(&mut self) -> (update: TimerUpdatePayload)
        requires
            old(self)@.wf(),
        ensures
            final(self)@.wf(),
            final(self)@ == old(self)@.stopped(),
            final(self)@.state is Idle,
            final(self)@.remaining_seconds == old(self)@.work_duration,
            final(self)@.current_session == 1,
            update@ == old(self)@.stop_payload(),
    {
        self.state = TimerState::Idle;
        self.remaining_seconds = self.work_duration;
        self.current_session = 1;
        TimerUpdatePayload {
            state: String::from_str("idle"),
            remaining_time: self.work_duration,
            interval_time: 0,
        }
    }

    /// Advances the timer by one interval. While idle or paused nothing
    /// happens and nothing is published. Otherwise the remaining time runs
    /// down, and when it is used up the next phase begins: after work a break
    /// (and the session counter moves on), after a break work.
    pub fn tick(&mut self) -> (outcome: TickOutcome)
        requires
            old(self)@.wf(),
        ensures
            final(self)@.wf(),
            final(self)@ == old(self)@.ticked(),
            outcome.session_completed == old(self)@.completes_session(),
            outcome.update is Some == old(self)@.ticking(),
            outcome.update matches Some(p) ==> p@ == old(self)@.tick_payload(),
    {
        let mut session_completed = false;
        match self.state {
            TimerState::Idle | TimerState::Paused => {
                return TickOutcome { update: None, session_completed };
            },
            _ => {},
        }
        if self.remaining_seconds > self.interval_time {
            self.remaining_seconds = self.remaining_seconds - self.interval_time;
        } else {
            match self.state {
                TimerState::Running => {
                    if self.current_session % self.sessions_before_long_break == 0 {
                        self.state = TimerState::LongBreak;
                        self.remaining_seconds = self.long_break_duration;
                    } else {
                        self.state = TimerState::ShortBreak;
                        self.remaining_seconds = self.short_break_duration;
                    }
                    if self.current_session < u32::MAX {
                        self.current_session = self.current_session + 1;
                    }
                    session_completed = true;
                },
                _ => {
                    self.state = TimerState::Running;
                    self.remaining_seconds = self.work_duration;
                },
            }
        }
        let update = TimerUpdatePayload {
            state: self.state.name(),
            remaining_time: self.remaining_seconds,
            interval_time: self.interval_time,
        };
        TickOutcome { update: Some(update), session_completed }
    }
}

/// The mathematical value of a timer slot: the timer it holds, if any.
pub open spec fn slot_view(slot: Option<PomodoroTimer>) -> Option<TimerView> {
    match slot {
        Some(timer) => Some(timer@),
        None => None,
    }
}

/// Whether a timer slot holds nothing or a well-formed timer.
pub open spec fn slot_wf(slot: Option<PomodoroTimer>) -> bool {
    match slot {
        Some(timer) => timer@.wf(),
        None => true,
    }
}

/// The answer of every timer command given to an empty slot.
pub open spec fn not_initialized() -> Seq<char> {
    "pomodoro timer not initialized"@
}

/// The timer of a fresh slot.
pub open spec fn fresh_timer() -> TimerView {
    TimerView {
        state: TimerState::Idle,
        last_active_state: None,
        remaining_seconds: 5,
        current_session: 1,
        work_duration: 5,
        short_break_duration: 5,
        long_break_duration: 900,
        sessions_before_long_break: 4,
        interval_time: 1,
    }
}

/// Why a slot refuses to start its timer, if it does.
pub open spec fn start_refusal(slot: Option<TimerView>) -> Option<Seq<char>> {
    match slot {
        None => Some(not_initialized()),
        Some(timer) => if timer.state is Idle {
            None
        } else {
            Some("timer already started; use resume()"@)
        },
    }
}

/// Why a slot refuses to resume its timer, if it does.
pub open spec fn resume_refusal(slot: Option<TimerView>) -> Option<Seq<char>> {
    match slot {
        None => Some(not_initialized()),
        Some(timer) => if timer.state is Paused {
            None
        } else {
            Some("timer is not paused"@)
        },
    }
}

/// Why a slot refuses to pause or stop its timer, if it does.
pub open spec fn empty_refusal(slot: Option<TimerView>) -> Option<Seq<char>> {
    match slot {
        None => Some(not_initialized()),
        Some(_) => None,
    }
}

/// The slot after its timer was told to start.
pub open spec fn slot_started(slot: Option<TimerView>) -> Option<TimerView> {
    match slot {
        Some(timer) => if timer.state is Idle {
            Some(timer.started())
        } else {
            Some(timer)
        },
        None => None,
    }
}

/// The slot after its timer was told to resume.
pub open spec fn slot_resumed(slot: Option<TimerView>) -> Option<TimerView> {
    match slot {
        Some(timer) => if timer.state is Paused {
            Some(timer.resumed())
        } else {
            Some(timer)
        },
        None => None,
    }
}

/// The slot after its timer was told to pause.
pub open spec fn slot_paused(slot: Option<TimerView>) -> Option<TimerView> {
    match slot {
        Some(timer) => Some(timer.paused()),
        None => None,
    }
}

/// The slot after its timer was told to stop.
pub open spec fn slot_stopped(slot: Option<TimerView>) -> Option<TimerView> {
    match slot {
        Some(timer) => Some(timer.stopped()),
        None => None,
    }
}

/// Puts a fresh idle timer into the slot, replacing what it held.
pub fn init_pomodoro(slot: &mut Option<PomodoroTimer>)
    ensures
        slot_wf(*final(slot)),
        slot_view(*final(slot)) == Some(fresh_timer()),
{
    *slot = Some(PomodoroTimer::new());
}

/// Starts the timer in the slot.
pub fn start_timer(slot: &mut Option<PomodoroTimer>) -> (r: Result<(), String>)
    requires
        slot_wf(*old(slot)),
    ensures
        slot_wf(*final(slot)),
        slot_view(*final(slot)) == slot_started(slot_view(*old(slot))),
        refusal_of(r) == start_refusal(slot_view(*old(slot))),
{
    match slot {
        Some(timer) => match timer.start() {
            Ok(()) => Ok(()),
            Err(reason) => Err(String::from_str(reason)),
        },
        None => Err(String::from_str("pomodoro timer not initialized")),
    }
}

/// Resumes the timer in the slot.
pub fn resume_timer(slot: &mut Option<PomodoroTimer>) -> (r: Result<(), String>)
    requires
        slot_wf(*old(slot)),
    ensures
        slot_wf(*final(slot)),
        slot_view(*final(slot)) == slot_resumed(slot_view(*old(slot))),
        refusal_of(r) == resume_refusal(slot_view(*old(slot))),
{
    match slot {
        Some(timer) => match timer.resume() {
            Ok(()) => Ok(()),
            Err(reason) => Err(String::from_str(reason)),
        },
        None => Err(String::from_str("pomodoro timer not initialized")),
    }
}

/// Pauses the timer in the slot.
pub fn pause_timer(slot: &mut Option<PomodoroTimer>) -> (r: Result<(), String>)
    requires
        slot_wf(*old(slot)),
    ensures
        slot_wf(*final(slot)),
        slot_view(*final(slot)) == slot_paused(slot_view(*old(slot))),
        refusal_of(r) == empty_refusal(slot_view(*old(slot))),
{
    match slot {
        Some(timer) => {
            timer.pause();
            Ok(())
        },
        None => Err(String::from_str("pomodoro timer not initialized")),
    }
}

/// Stops the timer in the slot. On success the result is the update to
/// publish.
pub fn stop_time(slot: &mut Option<PomodoroTimer>) -> (r: Result<TimerUpdatePayload, String>)
    requires
        slot_wf(*old(slot)),
    ensures
        slot_wf(*final(slot)),
        slot_view(*final(slot)) == slot_stopped(slot_view(*old(slot))),
        match slot_view(*old(slot)) {
            None => r is Err && r->Err_0@ == not_initialized(),
            Some(before) => r is Ok && r->Ok_0@ == before.stop_payload(),
        },
{
    match slot {
        Some(timer) => Ok(timer.stop()),
        None => Err(String::from_str("pomodoro timer not initialized")),
    }
}

/// The `/start` command: `start_timer`, answered in words.
pub fn command_start_pomodoro(slot: &mut Option<PomodoroTimer>) -> (r: Result<String, String>)
    requires
        slot_wf(*old(slot)),
    ensures
        slot_wf(*final(slot)),
        slot_view(*final(slot)) == slot_started(slot_view(*old(slot))),
        reply_view(r) == reply_unless(start_refusal(slot_view(*old(slot))), "pomodoro started"@),
{
    match start_timer(slot) {
        Ok(()) => Ok(String::from_str("pomodoro started")),
        Err(reason) => Err(reason),
    }
}

/// The `/resume` command: `resume_timer`, answered in words.
pub fn command_resume_pomodoro(slot: &mut Option<PomodoroTimer>) -> (r: Result<String, String>)
    requires
        slot_wf(*old(slot)),
    ensures
        slot_wf(*final(slot)),
        slot_view(*final(slot)) == slot_resumed(slot_view(*old(slot))),
        reply_view(r) == reply_unless(resume_refusal(slot_view(*old(slot))), "pomodoro resumed"@),
{
    match resume_timer(slot) {
        Ok(()) => Ok(String::from_str("pomodoro resumed")),
        Err(reason) => Err(reason),
    }
}

/// The `/pause` command: `pause_timer`, answered in words.
pub fn command_pause_pomodoro(slot: &mut Option<PomodoroTimer>) -> (r: Result<String, String>)
    requires
        slot_wf(*old(slot)),
    ensures
        slot_wf(*final(slot)),
        slot_view(*final(slot)) == slot_paused(slot_view(*old(slot))),
        reply_view(r) == reply_unless(empty_refusal(slot_view(*old(slot))), "pomodoro paused"@),
{
    match pause_timer(slot) {
        Ok(()) => Ok(String::from_str("pomodoro paused")),
        Err(reason) => Err(reason),
    }
}

/// The `/stop` command: `stop_time`, answered in words, together with the
/// update to publish.
pub fn command_stop_pomodoro(slot: &mut Option<PomodoroTimer>) -> (r: Result<
    (String, TimerUpdatePayload),
    String,
>)
    requires
        slot_wf(*old(slot)),
    ensures
        slot_wf(*final(slot)),
        slot_view(*final(slot)) == slot_stopped(slot_view(*old(slot))),
        match slot_view(*old(slot)) {
            None => r is Err && r->Err_0@ == not_initialized(),
            Some(before) => r is Ok && r->Ok_0.0@ == "pomodoro stopped"@ && r->Ok_0.1@
                == before.stop_payload(),
        },
{
    match stop_time(slot) {
        Ok(update) => Ok((String::from_str("pomodoro stopped"), update)),
        Err(reason) => Err(reason),
    }
}

/// While a phase counts down at one second a tick, `k` ticks take `k`
/// seconds off the clock and change nothing else, as long as a second is left.
pub proof fn lemma_counts_down(v: TimerView, k: nat)
    requires
        v.ticking(),
        v.interval_time == 1,
        k < v.remaining_seconds,
    ensures
        v.ticked_times(k) == (TimerView {
            remaining_seconds: (v.remaining_seconds - k) as nat,
            ..v
        }),
    decreases k,
{
    if k > 0 {
        lemma_counts_down(v, (k - 1) as nat);
    }
}

/// A phase with `r >= 1` seconds on the clock, ticked once a second, ends at
/// the `r`-th tick and not before: work gives way to the break that is due
/// (a long one where the session number is a multiple of
/// `sessions_before_long_break`, a short one otherwise) and the session
/// counter moves on; a break gives way to a whole work phase.
pub proof fn lemma_phase_ends_on_time(v: TimerView)
    requires
        v.ticking(),
        v.interval_time == 1,
        v.remaining_seconds >= 1,
    ensures
        forall|k: nat| k < v.remaining_seconds ==> (#[trigger] v.ticked_times(k)).state == v.state,
        v.state is Running ==> v.ticked_times(v.remaining_seconds) == (TimerView {
            state: v.break_due(),
            remaining_seconds: v.duration_of(v.break_due()),
            current_session: v.next_session(),
            ..v
        }),
        !(v.state is Running) ==> v.ticked_times(v.remaining_seconds) == (TimerView {
            state: TimerState::Running,
            remaining_seconds: v.work_duration,
            ..v
        }),
{
    assert forall|k: nat| k < v.remaining_seconds implies (#[trigger] v.ticked_times(k)).state
        == v.state by {
        lemma_counts_down(v, k);
    }
    lemma_counts_down(v, (v.remaining_seconds - 1) as nat);
}

/// Starting an idle timer and ticking it once a second: after exactly
/// `work_duration` ticks the first break begins, short unless the session
/// number is a multiple of `sessions_before_long_break`, with the whole break
/// on the clock.
pub proof fn lemma_work_session_then_break(v: TimerView)
    requires
        v.wf(),
        v.state is Idle,
        v.work_duration >= 1,
    ensures
        forall|k: nat|
            k < v.work_duration ==> (#[trigger] v.started().ticked_times(k)).state is Running,
        v.started().ticked_times(v.work_duration).state == v.break_due(),
        v.started().ticked_times(v.work_duration).remaining_seconds == v.duration_of(
            v.break_due(),
        ),
        v.started().ticked_times(v.work_duration).current_session == v.next_session(),
        v.current_session % v.sessions_before_long_break != 0 ==> v.break_due() is ShortBreak
            && v.duration_of(v.break_due()) == v.short_break_duration,
        v.current_session % v.sessions_before_long_break == 0 ==> v.break_due() is LongBreak
            && v.duration_of(v.break_due()) == v.long_break_duration,
{
    lemma_phase_ends_on_time(v.started());
}

/// A tick that does not end the phase leaves the phase as it is and takes
/// time off the clock.
pub proof fn lemma_tick_runs_down(v: TimerView)
    requires
        v.wf(),
        v.ticking(),
        !v.phase_ends(),
    ensures
        v.ticked().state == v.state,
        v.ticked().remaining_seconds < v.remaining_seconds,
{
}

/// Every operation keeps a well-formed timer well-formed.
pub proof fn lemma_operations_keep_wf(v: TimerView)
    requires
        v.wf(),
    ensures
        v.state is Idle ==> v.started().wf(),
        v.state is Paused ==> v.resumed().wf(),
        v.paused().wf(),
        v.stopped().wf(),
        v.ticked().wf(),
{
}

} // verus!
