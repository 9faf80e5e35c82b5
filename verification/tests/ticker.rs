use salieri::engine::Engine;
use salieri::states::{create_state_with, get_state_by_name, States};
use salieri::ticker::{TaskTicker, SAVE_EVERY};

const STATE: &str = "550e8400-e29b-41d4-a716-446655440000";
const STATE_VALUE: u128 = 0x550e8400_e29b_41d4_a716_446655440000;

#[test]
fn every_sixtieth_tick_that_accrued_asks_for_a_save() {
    assert_eq!(SAVE_EVERY, 60);
    let mut engine = Engine::new();
    let mut states = States::new();
    let mut ticker = TaskTicker::new();
    engine.create("d", "a", None, "1".to_string()).unwrap();
    for _ in 0..30 {
        let report = ticker.step_on(&mut engine, &mut states, "d");
        assert!(!report.accrued);
        assert!(!report.save);
    }
    assert_eq!(ticker.count(), 30);
    engine.activate("d", "a").unwrap();
    let mut saves = Vec::new();
    for _ in 0..150 {
        let report = ticker.step_on(&mut engine, &mut states, "d");
        assert!(report.accrued);
        if report.save {
            saves.push(ticker.count());
        }
    }
    assert_eq!(saves, vec![60, 120, 180]);
    assert_eq!(engine.list("d", false)[0].time_spent, 150);
    engine.deactivate("d", "a").unwrap();
    for _ in 0..60 {
        let report = ticker.step_on(&mut engine, &mut states, "d");
        assert!(!report.accrued);
        assert!(!report.save);
    }
    assert_eq!(ticker.count(), 240);
    assert_eq!(engine.list("d", false)[0].time_spent, 150);
}

#[test]
fn the_state_of_the_task_gets_the_time_too() {
    let mut engine = Engine::new();
    let mut states = States::new();
    let mut ticker = TaskTicker::new();
    create_state_with(&mut states, "deep".to_string(), STATE_VALUE);
    create_state_with(&mut states, "other".to_string(), 7);
    engine.create("d", "a", Some(STATE.to_string()), "1".to_string()).unwrap();
    engine.create("d", "b", Some("no identifier".to_string()), "2".to_string()).unwrap();
    engine.activate("d", "a").unwrap();
    for _ in 0..5 {
        ticker.step_on(&mut engine, &mut states, "d");
    }
    assert_eq!(get_state_by_name(&states, "deep").unwrap().total_time, 5);
    assert_eq!(get_state_by_name(&states, "other").unwrap().total_time, 0);
    engine.activate("d", "b").unwrap();
    for _ in 0..3 {
        assert!(ticker.step_on(&mut engine, &mut states, "d").accrued);
    }
    assert_eq!(get_state_by_name(&states, "deep").unwrap().total_time, 5);
    assert_eq!(engine.list("d", false)[1].time_spent, 3);
}

#[test]
fn a_step_by_the_clock_works_on_today() {
    let mut engine = Engine::new();
    let mut states = States::new();
    let mut ticker = TaskTicker::new();
    let created = salieri::tasks::create_task(&mut engine, "a".to_string(), None).unwrap();
    engine.activate(&created.created_at, "a").unwrap();
    let report = ticker.step(&mut engine, &mut states);
    assert!(report.accrued);
    assert!(!report.save);
    assert_eq!(ticker.count(), 1);
    assert_eq!(engine.list(&created.created_at, false)[0].time_spent, 1);
}

#[test]
fn steps_by_the_clock_ask_for_a_save_on_every_sixtieth_tick() {
    let mut engine = Engine::new();
    let mut states = States::new();
    let mut ticker = TaskTicker::new();
    let created = salieri::tasks::create_task(&mut engine, "a".to_string(), None).unwrap();
    for _ in 0..60 {
        let report = ticker.step(&mut engine, &mut states);
        assert!(!report.accrued);
        assert!(!report.save);
    }
    engine.activate(&created.created_at, "a").unwrap();
    let mut saves = Vec::new();
    for _ in 0..120 {
        let report = ticker.step(&mut engine, &mut states);
        assert!(report.accrued);
        if report.save {
            saves.push(ticker.count());
        }
    }
    assert_eq!(saves, vec![120, 180]);
    assert_eq!(engine.list(&created.created_at, false)[0].time_spent, 120);
}
