//! The accrual loop, one pass at a time. Whoever owns the clock calls
//! `step` once a second and saves the store and the states when it says so.

use crate::calendar::{current_day_key, today_key_of};
use crate::engine::Engine;
use crate::model::EngineView;
use crate::states::{increment_total_time, uuid_read, States, StatesView};
use vstd::prelude::*;

verus! {

/// The store and the states are saved on every tick whose number is a
/// multiple of this, if the tick changed anything.
pub const SAVE_EVERY: u64 = 60;

/// What one pass of the loop did: whether a second was added to the active
/// task, and whether it is time to save.
pub struct TickReport {
    pub accrued: bool,
    pub save: bool,
}

/// The accrual loop's own state: the number of ticks so far, which starts
/// over after the largest number.
pub struct TaskTicker {
    tick_count: u64,
}

/// The number of the tick after tick `n`.
pub open spec fn next_tick(n: u64) -> u64 {
    if n == u64::MAX {
        0
    } else {
        (n + 1) as u64
    }
}

/// The states after a tick that accrued time on a task of the state
/// `state_id`: the state with this identifier, if the text is an identifier
/// and there is such a state, has one more second.
pub open spec fn states_ticked(states: StatesView, state_id: Option<Seq<char>>) -> StatesView {
    match state_id {
        None => states,
        Some(text) => match uuid_read(text) {
            Ok(key) => states.timed(key, 1),
            Err(_) => states,
        },
    }
}

/// The productivity state of the task that a tick on `today` accrues time
/// on.
pub open spec fn ticked_state(engine: EngineView, today: Seq<char>) -> Option<Seq<char>> {
    match engine.tick_slot(today) {
        Some((k, i)) => engine.days[k].todo[i].state_id,
        None => None,
    }
}

impl TaskTicker {
    /// A loop that has not ticked yet.
    pub fn new() -> (ticker: Self)
        ensures
            ticker.tick_count() == 0,
    {
        TaskTicker { tick_count: 0 }
    }

    /// The number of ticks so far.
    pub closed spec fn tick_count(&self) -> u64 {
        self.tick_count
    }

    /// The number of ticks so far.
    pub fn count(&self) -> (n: u64)
        ensures
            n == self.tick_count(),
    {
        self.tick_count
    }

    /// One pass of the loop on the day `today`. The tick is counted; the
    /// engine ticks; where that added a second to a task with a productivity
    /// state, the state gets the second too; and it is time to save where a
    /// second was added and the number of the tick is a multiple of
    /// `SAVE_EVERY`.
    pub fn step_on(&mut self, engine: &mut Engine, states: &mut States, today: &str) -> (report:
        TickReport)
        requires
            old(engine).wf(),
            old(states)@.wf(),
        ensures
            final(self).tick_count() == next_tick(old(self).tick_count()),
            final(engine).wf(),
            final(engine)@ == old(engine)@.ticked(today@),
            final(states)@.wf(),
            final(states)@ == states_ticked(old(states)@, ticked_state(old(engine)@, today@)),
            report.accrued == old(engine)@.tick_slot(today@) is Some,
            report.save == (report.accrued && final(self).tick_count() % SAVE_EVERY == 0),
    {
        self.tick_count = if self.tick_count == u64::MAX {
            0
        } else {
            self.tick_count + 1
        };
        let outcome = engine.tick(today);
        match &outcome.state_id {
            Some(state_id) => {
                let _ = increment_total_time(states, state_id.as_str(), 1);
            },
            None => {},
        }
        TickReport {
            accrued: outcome.accrued,
            save: outcome.accrued && self.tick_count % SAVE_EVERY == 0,
        }
    }

    /// One pass of the loop on the current logical day, by the system clock:
    /// what `step_on` does on that day.
    pub fn step(&mut self, engine: &mut Engine, states: &mut States) -> (report: TickReport)
        requires
            old(engine).wf(),
            old(states)@.wf(),
        ensures
            final(self).tick_count() == next_tick(old(self).tick_count()),
            final(engine).wf(),
            final(states)@.wf(),
            report.save == (report.accrued && final(self).tick_count() % SAVE_EVERY == 0),
            exists|today: Seq<char>|
                today_key_of(Some(today), 0) && #[trigger] stepped_on(
                    old(engine)@,
                    final(engine)@,
                    old(states)@,
                    final(states)@,
                    report.accrued,
                    today,
                ),
    {
        let today = current_day_key();
        let report = self.step_on(engine, states, today.as_str());
        proof {
            assert(stepped_on(
                old(engine)@,
                final(engine)@,
                old(states)@,
                final(states)@,
                report.accrued,
                today@,
            ));
        }
        report
    }
}

/// The engine and the states did what one pass of the loop does on the day
/// `today`.
pub open spec fn stepped_on(
    engine_before: EngineView,
    engine_after: EngineView,
    states_before: StatesView,
    states_after: StatesView,
    accrued: bool,
    today: Seq<char>,
) -> bool {
    &&& engine_after == engine_before.ticked(today)
    &&& states_after == states_ticked(states_before, ticked_state(engine_before, today))
    &&& accrued == engine_before.tick_slot(today) is Some
}

} // verus!
