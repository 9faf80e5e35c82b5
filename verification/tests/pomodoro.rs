use salieri::pomodoro::{
    command_pause_pomodoro, command_resume_pomodoro, command_start_pomodoro,
    command_stop_pomodoro, init_pomodoro, pause_timer, resume_timer, start_timer, stop_time,
    PomodoroTimer, TimerState,
};

fn tick_times(timer: &mut PomodoroTimer, n: u64) {
    for _ in 0..n {
        timer.tick();
    }
}

#[test]
fn new_timer_is_idle_with_a_whole_work_phase() {
    let timer = PomodoroTimer::new();
    assert_eq!(timer.state(), TimerState::Idle);
    assert_eq!(timer.remaining_seconds(), 5);
    assert_eq!(timer.current_session(), 1);
}

#[test]
fn work_phase_ends_in_a_short_break_after_work_duration_ticks() {
    let mut timer = PomodoroTimer::with_durations(25, 5, 15, 4).unwrap();
    timer.start().unwrap();
    assert_eq!(timer.state(), TimerState::Running);
    assert_eq!(timer.remaining_seconds(), 25);
    tick_times(&mut timer, 24);
    assert_eq!(timer.state(), TimerState::Running);
    assert_eq!(timer.remaining_seconds(), 1);
    let outcome = timer.tick();
    assert!(outcome.session_completed);
    assert_eq!(timer.state(), TimerState::ShortBreak);
    assert_eq!(timer.remaining_seconds(), 5);
    assert_eq!(timer.current_session(), 2);
    let update = outcome.update.unwrap();
    assert_eq!(update.state, "shortbreak");
    assert_eq!(update.remaining_time, 5);
    assert_eq!(update.interval_time, 1);
}

#[test]
fn every_fourth_session_ends_in_a_long_break() {
    let mut timer = PomodoroTimer::with_durations(3, 2, 7, 4).unwrap();
    timer.start().unwrap();
    let mut breaks = Vec::new();
    for _ in 0..8 {
        tick_times(&mut timer, 3);
        breaks.push((timer.state(), timer.remaining_seconds()));
        let rest = timer.remaining_seconds();
        tick_times(&mut timer, rest);
        assert_eq!(timer.state(), TimerState::Running);
        assert_eq!(timer.remaining_seconds(), 3);
    }
    let short = (TimerState::ShortBreak, 2);
    let long = (TimerState::LongBreak, 7);
    assert_eq!(breaks, vec![short, short, short, long, short, short, short, long]);
    assert_eq!(timer.current_session(), 9);
}

#[test]
fn remaining_time_runs_down_by_one_each_tick() {
    let mut timer = PomodoroTimer::new();
    timer.start().unwrap();
    let mut seen = Vec::new();
    for _ in 0..4 {
        let outcome = timer.tick();
        assert!(!outcome.session_completed);
        let update = outcome.update.unwrap();
        assert_eq!(update.state, "running");
        seen.push(update.remaining_time);
    }
    assert_eq!(seen, vec![4, 3, 2, 1]);
}

#[test]
fn idle_and_paused_timers_do_not_tick() {
    let mut timer = PomodoroTimer::new();
    let outcome = timer.tick();
    assert!(outcome.update.is_none());
    assert!(!outcome.session_completed);
    assert_eq!(timer.remaining_seconds(), 5);
    timer.start().unwrap();
    timer.tick();
    timer.pause();
    assert_eq!(timer.state(), TimerState::Paused);
    let outcome = timer.tick();
    assert!(outcome.update.is_none());
    assert_eq!(timer.remaining_seconds(), 4);
}

#[test]
fn resume_goes_back_to_the_phase_left_with_the_time_left() {
    let mut timer = PomodoroTimer::with_durations(2, 9, 9, 4).unwrap();
    timer.start().unwrap();
    tick_times(&mut timer, 2);
    assert_eq!(timer.state(), TimerState::ShortBreak);
    tick_times(&mut timer, 3);
    timer.pause();
    assert_eq!(timer.state(), TimerState::Paused);
    assert_eq!(timer.remaining_seconds(), 6);
    timer.resume().unwrap();
    assert_eq!(timer.state(), TimerState::ShortBreak);
    assert_eq!(timer.remaining_seconds(), 6);
}

#[test]
fn start_and_resume_are_refused_in_the_wrong_phase() {
    let mut timer = PomodoroTimer::new();
    assert_eq!(timer.resume(), Err("timer is not paused"));
    timer.start().unwrap();
    assert_eq!(timer.start(), Err("timer already started; use resume()"));
    timer.pause();
    assert_eq!(timer.start(), Err("timer already started; use resume()"));
    assert_eq!(timer.state(), TimerState::Paused);
    timer.resume().unwrap();
    assert_eq!(timer.resume(), Err("timer is not paused"));
}

#[test]
fn pause_does_nothing_to_an_idle_timer() {
    let mut timer = PomodoroTimer::new();
    timer.pause();
    assert_eq!(timer.state(), TimerState::Idle);
}

#[test]
fn stop_returns_to_idle_from_every_phase() {
    let phases: Vec<fn(&mut PomodoroTimer)> = vec![
        |_t| {},
        |t| {
            t.start().unwrap();
            t.tick();
        },
        |t| {
            t.start().unwrap();
            t.tick();
            t.pause();
        },
        |t| {
            t.start().unwrap();
            for _ in 0..3 {
                t.tick();
            }
        },
        |t| {
            t.start().unwrap();
            for _ in 0..(4 * 3 + 3 * 2) {
                t.tick();
            }
        },
    ];
    let expected = [
        TimerState::Idle,
        TimerState::Running,
        TimerState::Paused,
        TimerState::ShortBreak,
        TimerState::LongBreak,
    ];
    for (reach, phase) in phases.iter().zip(expected.iter()) {
        let mut timer = PomodoroTimer::with_durations(3, 2, 7, 4).unwrap();
        reach(&mut timer);
        assert_eq!(timer.state(), *phase);
        let update = timer.stop();
        assert_eq!(timer.state(), TimerState::Idle);
        assert_eq!(timer.remaining_seconds(), 3);
        assert_eq!(timer.current_session(), 1);
        assert_eq!(update.state, "idle");
        assert_eq!(update.remaining_time, 3);
        assert_eq!(update.interval_time, 0);
    }
}

#[test]
fn no_timer_without_a_session_length() {
    assert!(PomodoroTimer::with_durations(1, 1, 1, 0).is_none());
    assert!(PomodoroTimer::with_durations(0, 0, 0, 1).is_some());
}

#[test]
fn a_work_phase_of_no_length_ends_at_the_first_tick() {
    let mut timer = PomodoroTimer::with_durations(0, 4, 4, 2).unwrap();
    timer.start().unwrap();
    assert_eq!(timer.state(), TimerState::Running);
    let outcome = timer.tick();
    assert!(outcome.session_completed);
    assert_eq!(timer.state(), TimerState::ShortBreak);
}

#[test]
fn phase_names() {
    assert_eq!(TimerState::Idle.name(), "idle");
    assert_eq!(TimerState::Running.name(), "running");
    assert_eq!(TimerState::Paused.name(), "paused");
    assert_eq!(TimerState::ShortBreak.name(), "shortbreak");
    assert_eq!(TimerState::LongBreak.name(), "longbreak");
}

#[test]
fn an_empty_slot_refuses_every_command() {
    let mut slot: Option<PomodoroTimer> = None;
    let refusal = "pomodoro timer not initialized".to_string();
    assert_eq!(start_timer(&mut slot), Err(refusal.clone()));
    assert_eq!(resume_timer(&mut slot), Err(refusal.clone()));
    assert_eq!(pause_timer(&mut slot), Err(refusal.clone()));
    assert_eq!(stop_time(&mut slot).err(), Some(refusal.clone()));
    assert_eq!(command_start_pomodoro(&mut slot), Err(refusal.clone()));
    assert_eq!(command_resume_pomodoro(&mut slot), Err(refusal.clone()));
    assert_eq!(command_pause_pomodoro(&mut slot), Err(refusal.clone()));
    assert_eq!(command_stop_pomodoro(&mut slot).err(), Some(refusal));
    assert!(slot.is_none());
}

#[test]
fn slot_commands_answer_in_words() {
    let mut slot: Option<PomodoroTimer> = None;
    init_pomodoro(&mut slot);
    assert_eq!(slot.as_ref().unwrap().state(), TimerState::Idle);
    assert_eq!(command_resume_pomodoro(&mut slot), Err("timer is not paused".to_string()));
    assert_eq!(command_start_pomodoro(&mut slot), Ok("pomodoro started".to_string()));
    assert_eq!(
        command_start_pomodoro(&mut slot),
        Err("timer already started; use resume()".to_string())
    );
    assert_eq!(command_pause_pomodoro(&mut slot), Ok("pomodoro paused".to_string()));
    assert_eq!(slot.as_ref().unwrap().state(), TimerState::Paused);
    assert_eq!(command_resume_pomodoro(&mut slot), Ok("pomodoro resumed".to_string()));
    assert_eq!(slot.as_ref().unwrap().state(), TimerState::Running);
    let (reply, update) = command_stop_pomodoro(&mut slot).unwrap();
    assert_eq!(reply, "pomodoro stopped");
    assert_eq!(update.state, "idle");
    assert_eq!(update.remaining_time, 5);
    assert_eq!(slot.as_ref().unwrap().state(), TimerState::Idle);
}
