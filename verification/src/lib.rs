//! A task and activity tracking engine: a day-partitioned task store in which
//! at most one task is active, a tick that accrues time against the active
//! task, and a Pomodoro phase scheduler.
//!
//! The engine holds no clock and touches no disk. `model` says what a state
//! of the engine is and what each operation makes of it; `engine` and `store`
//! carry the operations out on insertion-ordered maps (`ordered`);
//! `invariants` proves that each operation keeps the invariant, and `laws`
//! what follows from that. `ticker` and `pomodoro` are the two things that
//! run once a second. `tasks`, `states`, `theme`, `fileaccess` and `commands`
//! are the command surface, `calendar` the logical day.

pub mod calendar;
pub mod commands;
pub mod engine;
pub mod fileaccess;
pub mod invariants;
pub mod laws;
pub mod model;
pub mod ordered;
pub mod pomodoro;
pub mod reply;
pub mod search;
pub mod states;
pub mod store;
pub mod task;
pub mod tasks;
pub mod text;
pub mod theme;
pub mod ticker;
pub mod user;
