use salieri::engine::Engine;
use salieri::model::TaskError;
use salieri::store::{clear_active_startup, DayRecord, Store};
use salieri::task::Task;

fn titles(tasks: &Vec<Task>) -> Vec<String> {
    tasks.iter().map(|t| t.title.clone()).collect()
}

fn task(id: &str, title: &str, status: &str, day: &str, time_spent: u64) -> Task {
    Task {
        id: id.to_string(),
        title: title.to_string(),
        status: status.to_string(),
        created_at: day.to_string(),
        time_spent,
        state_id: None,
    }
}

#[test]
fn create_then_activate_tick_and_complete() {
    let day = "2025-06-01";
    let mut engine = Engine::new();
    let created = engine.create(day, "write spec", None, "id-1".to_string()).unwrap();
    assert_eq!(created.title, "write spec");
    assert_eq!(created.status, "todo");
    assert_eq!(created.time_spent, 0);
    assert_eq!(created.created_at, day);
    let todo = engine.list(day, false);
    assert_eq!(todo.len(), 1);
    assert_eq!(todo[0].title, "write spec");
    assert_eq!(todo[0].status, "todo");
    assert_eq!(todo[0].time_spent, 0);

    let active = engine.activate(day, "write spec").unwrap();
    assert_eq!(active.status, "doing");
    assert_eq!(engine.get_active_task().unwrap().title, "write spec");
    assert_eq!(engine.list(day, false)[0].status, "doing");

    for _ in 0..5 {
        let outcome = engine.tick(day);
        assert!(outcome.accrued);
    }
    assert_eq!(engine.list(day, false)[0].time_spent, 5);

    let done = engine.complete(day, "write spec").unwrap();
    assert_eq!(done.status, "done");
    assert_eq!(done.time_spent, 5);
    assert!(engine.list(day, false).is_empty());
    let finished = engine.list(day, true);
    assert_eq!(finished.len(), 1);
    assert_eq!(finished[0].title, "write spec");
    assert_eq!(finished[0].status, "done");
    assert!(engine.get_active_task().is_none());
}

#[test]
fn create_refuses_blank_and_duplicate_titles() {
    let mut engine = Engine::new();
    assert_eq!(engine.create("d", "   ", None, "a".to_string()).unwrap_err(), TaskError::MissingTitle);
    assert_eq!(engine.create("d", "", None, "a".to_string()).unwrap_err(), TaskError::MissingTitle);
    assert!(engine.store().snapshot().is_empty());
    engine.create("d", "one", None, "a".to_string()).unwrap();
    assert_eq!(
        engine.create("d", "one", None, "b".to_string()).unwrap_err(),
        TaskError::DuplicateTitle
    );
    assert_eq!(
        engine.create("d", "two", None, "a".to_string()).unwrap_err(),
        TaskError::DuplicateId
    );
    engine.complete("d", "one").unwrap();
    assert_eq!(
        engine.create("d", "one", None, "c".to_string()).unwrap_err(),
        TaskError::DuplicateTitle
    );
    // the same title on another day is another task
    engine.create("e", "one", None, "a".to_string()).unwrap();
    assert_eq!(titles(&engine.list("e", false)), vec!["one".to_string()]);
}

#[test]
fn at_most_one_task_is_doing() {
    let mut engine = Engine::new();
    engine.create("d1", "a", None, "1".to_string()).unwrap();
    engine.create("d1", "b", None, "2".to_string()).unwrap();
    engine.create("d2", "c", None, "3".to_string()).unwrap();
    engine.activate("d1", "a").unwrap();
    engine.activate("d2", "c").unwrap();
    engine.activate("d1", "b").unwrap();
    let mut doing = Vec::new();
    for record in engine.store().snapshot() {
        for t in record.todo.iter().chain(record.done.iter()) {
            if t.status == "doing" {
                doing.push(t.id.clone());
            }
        }
    }
    assert_eq!(doing, vec!["2".to_string()]);
    assert_eq!(engine.get_active_task().unwrap().id, "2");
}

#[test]
fn activate_switches_from_one_task_to_the_other() {
    let mut engine = Engine::new();
    engine.create("d", "A", None, "1".to_string()).unwrap();
    engine.create("d", "B", None, "2".to_string()).unwrap();
    engine.activate("d", "A").unwrap();
    engine.activate("d", "B").unwrap();
    let todo = engine.list("d", false);
    assert_eq!(todo[0].title, "A");
    assert_eq!(todo[0].status, "todo");
    assert_eq!(todo[1].title, "B");
    assert_eq!(todo[1].status, "doing");
}

#[test]
fn activate_twice_is_already_active() {
    let mut engine = Engine::new();
    engine.create("d", "A", None, "1".to_string()).unwrap();
    engine.activate("d", "A").unwrap();
    let before = engine.store().snapshot();
    assert_eq!(engine.activate("d", "A").unwrap_err(), TaskError::AlreadyActive);
    let after = engine.store().snapshot();
    assert_eq!(before.len(), after.len());
    assert_eq!(after[0].todo[0].status, "doing");
    assert_eq!(engine.get_active_task().unwrap().id, "1");
}

#[test]
fn activate_unknown_task_is_not_found_and_leaves_the_day() {
    let mut engine = Engine::new();
    assert_eq!(engine.activate("d", "nothing").unwrap_err(), TaskError::NotFound);
    let days = engine.store().snapshot();
    assert_eq!(days.len(), 1);
    assert_eq!(days[0].day, "d");
    assert!(days[0].todo.is_empty());
}

#[test]
fn ticks_accrue_only_while_doing() {
    let mut engine = Engine::new();
    engine.create("d", "A", None, "1".to_string()).unwrap();
    assert!(!engine.tick("d").accrued);
    engine.activate("d", "A").unwrap();
    for _ in 0..7 {
        assert!(engine.tick("d").accrued);
    }
    // a tick on another day finds no such task
    assert!(!engine.tick("other").accrued);
    engine.deactivate("d", "A").unwrap();
    for _ in 0..3 {
        assert!(!engine.tick("d").accrued);
    }
    assert_eq!(engine.list("d", false)[0].time_spent, 7);
    assert_eq!(engine.list("d", false)[0].status, "todo");
}

#[test]
fn tick_reports_the_state_of_the_task() {
    let mut engine = Engine::new();
    engine.create("d", "A", Some("state-9".to_string()), "1".to_string()).unwrap();
    engine.activate("d", "A").unwrap();
    let outcome = engine.tick("d");
    assert!(outcome.accrued);
    assert_eq!(outcome.state_id, Some("state-9".to_string()));
}

#[test]
fn tick_stops_at_a_full_counter() {
    let records = vec![DayRecord {
        day: "d".to_string(),
        todo: vec![task("1", "A", "todo", "d", u64::MAX - 1)],
        done: vec![],
    }];
    let mut engine = Engine::from_store(Store::restore(&records));
    engine.activate("d", "A").unwrap();
    assert!(engine.tick("d").accrued);
    assert!(!engine.tick("d").accrued);
    assert_eq!(engine.list("d", false)[0].time_spent, u64::MAX);
}

#[test]
fn deactivate_errors() {
    let mut engine = Engine::new();
    engine.create("d", "A", None, "1".to_string()).unwrap();
    assert_eq!(engine.deactivate("d", "B").unwrap_err(), TaskError::NotFound);
    assert_eq!(engine.deactivate("d", "A").unwrap_err(), TaskError::NotActive);
    engine.activate("d", "A").unwrap();
    engine.deactivate("d", "A").unwrap();
    assert!(engine.get_active_task().is_none());
}

#[test]
fn complete_keeps_the_order_and_delete_moves_the_last() {
    let mut engine = Engine::new();
    for (i, t) in ["a", "b", "c", "d"].iter().enumerate() {
        engine.create("day", t, None, format!("{}", i)).unwrap();
    }
    engine.complete("day", "a").unwrap();
    assert_eq!(titles(&engine.list("day", false)), vec!["b", "c", "d"]);
    engine.delete("day", "b").unwrap();
    assert_eq!(titles(&engine.list("day", false)), vec!["d", "c"]);
    assert_eq!(titles(&engine.list("day", true)), vec!["a"]);
    assert_eq!(engine.complete("day", "zzz").unwrap_err(), TaskError::NotFound);
    assert_eq!(engine.delete("day", "a").unwrap_err(), TaskError::NotFound);
}

#[test]
fn deleting_the_active_task_clears_it() {
    let mut engine = Engine::new();
    engine.create("d", "A", None, "1".to_string()).unwrap();
    engine.activate("d", "A").unwrap();
    engine.delete("d", "A").unwrap();
    assert!(engine.get_active_task().is_none());
    assert!(!engine.tick("d").accrued);
}

#[test]
fn set_and_clear_the_active_task() {
    let mut engine = Engine::new();
    engine.create("d", "A", None, "1".to_string()).unwrap();
    engine.create("d", "B", None, "2".to_string()).unwrap();
    assert_eq!(engine.set_active_task("d", "9").unwrap_err(), TaskError::NotFound);
    assert_eq!(engine.set_active_task("x", "1").unwrap_err(), TaskError::NotFound);
    assert_eq!(engine.store().snapshot().len(), 1);
    engine.set_active_task("d", "1").unwrap();
    engine.tick("d");
    let again = engine.set_active_task("d", "1").unwrap();
    assert_eq!(again.status, "doing");
    assert_eq!(again.time_spent, 1);
    engine.set_active_task("d", "2").unwrap();
    let todo = engine.list("d", false);
    assert_eq!(todo[0].status, "todo");
    assert_eq!(todo[1].status, "doing");
    engine.clear_active_task();
    assert!(engine.get_active_task().is_none());
    assert_eq!(engine.list("d", false)[1].status, "todo");
}

#[test]
fn snapshot_and_restore_round_trip() {
    let mut engine = Engine::new();
    engine.create("d1", "a", Some("s".to_string()), "1".to_string()).unwrap();
    engine.create("d1", "b", None, "2".to_string()).unwrap();
    engine.create("d2", "c", None, "3".to_string()).unwrap();
    engine.activate("d1", "b").unwrap();
    engine.tick("d1");
    engine.complete("d1", "a").unwrap();
    let records = engine.store().snapshot();
    let reloaded = Store::restore(&records).snapshot();
    assert_eq!(records.len(), reloaded.len());
    for (x, y) in records.iter().zip(reloaded.iter()) {
        assert_eq!(x.day, y.day);
        assert_eq!(x.todo.len(), y.todo.len());
        assert_eq!(x.done.len(), y.done.len());
        for (s, t) in x.todo.iter().chain(x.done.iter()).zip(y.todo.iter().chain(y.done.iter())) {
            assert_eq!(s.id, t.id);
            assert_eq!(s.title, t.title);
            assert_eq!(s.status, t.status);
            assert_eq!(s.time_spent, t.time_spent);
            assert_eq!(s.state_id, t.state_id);
            assert_eq!(s.created_at, t.created_at);
        }
    }
    assert_eq!(reloaded[0].todo[0].status, "doing");
    assert_eq!(reloaded[0].todo[0].time_spent, 1);
}

#[test]
fn restore_keeps_the_last_of_equal_identifiers_and_days() {
    let records = vec![
        DayRecord {
            day: "d".to_string(),
            todo: vec![task("1", "old", "todo", "d", 1), task("2", "x", "todo", "d", 0), task("1", "new", "todo", "d", 2)],
            done: vec![],
        },
        DayRecord { day: "e".to_string(), todo: vec![], done: vec![] },
        DayRecord { day: "d".to_string(), todo: vec![task("5", "later", "todo", "d", 0)], done: vec![] },
    ];
    let first = Store::restore(&copy_records(&records[..1])).snapshot();
    assert_eq!(titles(&first[0].todo), vec!["new", "x"]);
    let all = Store::restore(&records).snapshot();
    assert_eq!(all.len(), 2);
    assert_eq!(all[0].day, "d");
    assert_eq!(titles(&all[0].todo), vec!["later"]);
    assert_eq!(all[1].day, "e");
}

fn copy_records(records: &[DayRecord]) -> Vec<DayRecord> {
    records
        .iter()
        .map(|r| DayRecord { day: r.day.clone(), todo: r.todo.clone(), done: r.done.clone() })
        .collect()
}

#[test]
fn startup_puts_every_doing_task_to_rest() {
    let records = vec![
        DayRecord {
            day: "old".to_string(),
            todo: vec![task("1", "stale", "doing", "old", 3)],
            done: vec![task("2", "odd", "doing", "old", 0)],
        },
        DayRecord { day: "new".to_string(), todo: vec![task("3", "fresh", "doing", "new", 0)], done: vec![] },
    ];
    let mut store = Store::restore(&records);
    clear_active_startup(&mut store);
    let calm = store.snapshot();
    assert_eq!(calm[0].todo[0].status, "todo");
    assert_eq!(calm[0].todo[0].time_spent, 3);
    assert_eq!(calm[0].done[0].status, "done");
    assert_eq!(calm[1].todo[0].status, "todo");
    let engine = Engine::from_store(Store::restore(&records));
    assert!(engine.get_active_task().is_none());
    assert_eq!(engine.list("old", false)[0].status, "todo");
}

#[test]
fn list_of_an_unknown_day_is_empty() {
    let engine = Engine::new();
    assert!(engine.list("nowhere", false).is_empty());
    assert!(engine.list("nowhere", true).is_empty());
    assert!(engine.store().snapshot().is_empty());
}

#[test]
fn startup_changes_nothing_but_the_status_of_doing_tasks() {
    let mut stale = task("1", "stale", "doing", "old", 3);
    stale.state_id = Some("s".to_string());
    let records = vec![
        DayRecord {
            day: "old".to_string(),
            todo: vec![task("0", "first", "todo", "old", 9), stale],
            done: vec![task("2", "over", "done", "old", 5)],
        },
        DayRecord { day: "new".to_string(), todo: vec![], done: vec![task("3", "x", "done", "new", 1)] },
    ];
    let mut store = Store::restore(&records);
    clear_active_startup(&mut store);
    let calm = store.snapshot();
    assert_eq!(calm.len(), 2);
    assert_eq!(calm[0].day, "old");
    assert_eq!(calm[1].day, "new");
    assert_eq!(titles(&calm[0].todo), vec!["first", "stale"]);
    let fixed = &calm[0].todo[1];
    assert_eq!(fixed.status, "todo");
    assert_eq!(fixed.id, "1");
    assert_eq!(fixed.created_at, "old");
    assert_eq!(fixed.time_spent, 3);
    assert_eq!(fixed.state_id, Some("s".to_string()));
    assert_eq!(calm[0].todo[0].status, "todo");
    assert_eq!(calm[0].todo[0].time_spent, 9);
    assert_eq!(calm[0].done.len(), 1);
    assert_eq!(calm[0].done[0].status, "done");
    assert_eq!(calm[0].done[0].time_spent, 5);
    assert_eq!(calm[1].done[0].title, "x");
    assert_eq!(calm[1].done[0].status, "done");
    let mut engine = Engine::from_store(Store::restore(&records));
    assert!(engine.get_active_task().is_none());
    assert!(!engine.tick("old").accrued);
}
