use salieri::calendar::today_key;
use salieri::engine::Engine;
use salieri::model::TaskError;
use salieri::tasks::{
    command_break, command_break_on, command_completed, command_deleteT, command_deleteT_on,
    command_doing, command_doing_on, command_done, command_done_on, command_todo,
    command_todo_on, create_task, create_task_on, get_tasks,
};

fn parts(line: &str) -> Vec<String> {
    line.split_whitespace().map(|w| w.to_string()).collect()
}

fn titles_of(engine: &Engine, day: &str, done: bool) -> Vec<String> {
    engine.list(day, done).iter().map(|t| t.title.clone()).collect()
}

#[test]
fn refusals_in_words() {
    assert_eq!(TaskError::MissingTitle.to_message(), "need task title");
    assert_eq!(TaskError::DuplicateTitle.to_message(), "duplicate title");
    assert_eq!(TaskError::DuplicateId.to_message(), "duplicate task id");
    assert_eq!(TaskError::NotFound.to_message(), "task not found");
    assert_eq!(TaskError::AlreadyActive.to_message(), "already active");
    assert_eq!(TaskError::NotActive.to_message(), "task not active");
    assert_eq!(TaskError::NoDay.to_message(), "logical day out of range");
}

#[test]
fn todo_needs_a_title() {
    let mut engine = Engine::new();
    let r = command_todo_on(&mut engine, &parts("/todo"), "2025-06-01", "1".to_string(), None);
    assert_eq!(r, Err("need task title".to_string()));
    assert!(engine.store().snapshot().is_empty());
    assert_eq!(command_todo(&mut engine, &parts("/todo")), Err("need task title".to_string()));
    assert!(engine.store().snapshot().is_empty());
}

#[test]
fn todo_creates_today_or_on_the_given_day() {
    let mut engine = Engine::new();
    let r = command_todo_on(
        &mut engine,
        &parts("/todo write the spec"),
        "2025-06-01",
        "1".to_string(),
        None,
    );
    assert_eq!(r, Ok("added".to_string()));
    assert_eq!(titles_of(&engine, "2025-06-01", false), vec!["write the spec"]);
    let r = command_todo_on(
        &mut engine,
        &parts("/todo 06/03/2025 buy milk"),
        "2025-06-01",
        "2".to_string(),
        Some("2025-06-03".to_string()),
    );
    assert_eq!(r, Ok("added".to_string()));
    assert_eq!(titles_of(&engine, "2025-06-03", false), vec!["buy milk"]);
    let task = &engine.list("2025-06-03", false)[0];
    assert_eq!(task.created_at, "2025-06-03");
    assert_eq!(task.id, "2");
    assert_eq!(task.status, "todo");
    assert_eq!(task.state_id, None);
}

#[test]
fn todo_refuses_duplicates_and_a_date_without_a_title() {
    let mut engine = Engine::new();
    let day = "2025-06-01";
    command_todo_on(&mut engine, &parts("/todo a"), day, "1".to_string(), None).unwrap();
    assert_eq!(
        command_todo_on(&mut engine, &parts("/todo a"), day, "2".to_string(), None),
        Err("duplicate title".to_string())
    );
    assert_eq!(
        command_todo_on(&mut engine, &parts("/todo b"), day, "1".to_string(), None),
        Err("duplicate task id".to_string())
    );
    assert_eq!(
        command_todo_on(
            &mut engine,
            &parts("/todo 2025-06-02"),
            day,
            "3".to_string(),
            Some("2025-06-02".to_string())
        ),
        Err("need task title".to_string())
    );
    assert_eq!(engine.store().snapshot().len(), 1);
}

#[test]
fn todo_by_the_clock_reads_a_date_in_the_second_word() {
    let mut engine = Engine::new();
    assert_eq!(command_todo(&mut engine, &parts("/todo 06/01/2025 plan trip")), Ok("added".to_string()));
    assert_eq!(titles_of(&engine, "2025-06-01", false), vec!["plan trip"]);
    assert_eq!(command_todo(&mut engine, &parts("/todo plan trip")), Ok("added".to_string()));
    let today = today_key(0).unwrap();
    assert_eq!(titles_of(&engine, &today, false), vec!["plan trip"]);
    assert_eq!(command_todo(&mut engine, &parts("/todo plan trip")), Err("duplicate title".to_string()));
}

#[test]
fn fresh_identifiers_differ() {
    let mut engine = Engine::new();
    let a = create_task(&mut engine, "a".to_string(), None).unwrap();
    let b = create_task(&mut engine, "b".to_string(), Some("s".to_string())).unwrap();
    assert_ne!(a.id, b.id);
    assert_eq!(a.id.len(), 36);
    assert_eq!(b.state_id, Some("s".to_string()));
    assert_eq!(a.created_at, today_key(0).unwrap());
    assert_eq!(create_task(&mut engine, " ".to_string(), None).unwrap_err(), "need task title");
    assert_eq!(create_task(&mut engine, "a".to_string(), None).unwrap_err(), "duplicate title");
}

#[test]
fn create_task_on_a_day() {
    let mut engine = Engine::new();
    let t = create_task_on(&mut engine, "d", "x".to_string(), None, "7".to_string()).unwrap();
    assert_eq!(t.id, "7");
    assert_eq!(t.title, "x");
    assert_eq!(t.created_at, "d");
    assert_eq!(
        create_task_on(&mut engine, "d", "x".to_string(), None, "8".to_string()).unwrap_err(),
        "duplicate title"
    );
    assert_eq!(
        create_task_on(&mut engine, "d", "y".to_string(), None, "7".to_string()).unwrap_err(),
        "duplicate task id"
    );
    assert_eq!(
        create_task_on(&mut engine, "d", "\t".to_string(), None, "9".to_string()).unwrap_err(),
        "need task title"
    );
}

#[test]
fn doing_break_done_and_delete_on_a_day() {
    let mut engine = Engine::new();
    let day = "2025-06-01";
    for (i, t) in ["write spec", "read mail", "call home"].iter().enumerate() {
        engine.create(day, t, None, format!("{}", i)).unwrap();
    }
    assert_eq!(command_doing_on(&mut engine, &parts("/doing"), day), Err("need task title".to_string()));
    assert_eq!(
        command_doing_on(&mut engine, &parts("/doing nothing"), day),
        Err("task not found".to_string())
    );
    assert_eq!(
        command_doing_on(&mut engine, &parts("/doing write  spec"), day),
        Ok("task active".to_string())
    );
    assert_eq!(
        command_doing_on(&mut engine, &parts("/doing write spec"), day),
        Err("already active".to_string())
    );
    assert_eq!(
        command_break_on(&mut engine, &parts("/break read mail"), day),
        Err("Task 'read mail' found, but it's not currently 'doing'.".to_string())
    );
    assert_eq!(
        command_break_on(&mut engine, &parts("/break no such"), day),
        Err("Task 'no such' not found in the to-do list.".to_string())
    );
    assert_eq!(command_break_on(&mut engine, &parts("/break"), day), Err("need task title".to_string()));
    assert_eq!(
        command_break_on(&mut engine, &parts("/break write spec"), day),
        Ok("task paused".to_string())
    );
    assert!(engine.get_active_task().is_none());
    assert_eq!(
        command_done_on(&mut engine, &parts("/done write spec"), day),
        Ok("task moved to done".to_string())
    );
    assert_eq!(
        command_done_on(&mut engine, &parts("/done write spec"), day),
        Err("task not found".to_string())
    );
    assert_eq!(command_done_on(&mut engine, &parts("/done"), day), Err("need task title".to_string()));
    assert_eq!(
        command_deleteT_on(&mut engine, &parts("/deleteT write spec"), day),
        Err("Task 'write spec' not found for deletion.".to_string())
    );
    assert_eq!(
        command_deleteT_on(&mut engine, &parts("/deleteT read mail"), day),
        Ok("Task 'read mail' deleted.".to_string())
    );
    assert_eq!(command_deleteT_on(&mut engine, &parts("/deleteT"), day), Err("need task title".to_string()));
    assert_eq!(titles_of(&engine, day, false), vec!["call home"]);
    assert_eq!(titles_of(&engine, day, true), vec!["write spec"]);
}

#[test]
fn commands_by_the_clock_work_on_today() {
    let mut engine = Engine::new();
    assert_eq!(command_todo(&mut engine, &parts("/todo a task")), Ok("added".to_string()));
    assert_eq!(command_doing(&mut engine, &parts("/doing a task"), None), Ok("task active".to_string()));
    assert_eq!(engine.get_active_task().unwrap().title, "a task");
    assert_eq!(command_break(&mut engine, &parts("/break a task")), Ok("task paused".to_string()));
    assert_eq!(command_doing(&mut engine, &parts("/doing a task"), Some(0)), Ok("task active".to_string()));
    assert_eq!(
        command_doing(&mut engine, &parts("/doing a task"), Some(3)),
        Err("task not found".to_string())
    );
    assert_eq!(
        command_done(&mut engine, &parts("/done a task"), Some(3)),
        Err("task not found".to_string())
    );
    assert_eq!(command_done(&mut engine, &parts("/done a task"), None), Ok("task moved to done".to_string()));
    assert!(engine.get_active_task().is_none());
    assert_eq!(command_todo(&mut engine, &parts("/todo other")), Ok("added".to_string()));
    assert_eq!(command_deleteT(&mut engine, &parts("/deleteT other")), Ok("Task 'other' deleted.".to_string()));
    assert_eq!(
        command_doing(&mut engine, &parts("/doing x"), Some(i64::MAX)),
        Err("logical day out of range".to_string())
    );
    assert_eq!(
        command_done(&mut engine, &parts("/done x"), Some(i64::MIN)),
        Err("logical day out of range".to_string())
    );
    assert_eq!(command_doing(&mut engine, &parts("/doing"), Some(i64::MAX)), Err("need task title".to_string()));
}

#[test]
fn completed_always_succeeds() {
    assert_eq!(command_completed(), Ok("success".to_string()));
}

#[test]
fn get_tasks_lists_a_day() {
    let mut engine = Engine::new();
    engine.create("d", "a", None, "1".to_string()).unwrap();
    engine.create("d", "b", None, "2".to_string()).unwrap();
    engine.complete("d", "a").unwrap();
    let todo = get_tasks(&engine, "d".to_string(), false).unwrap();
    let done = get_tasks(&engine, "d".to_string(), true).unwrap();
    assert_eq!(todo.len(), 1);
    assert_eq!(todo[0].title, "b");
    assert_eq!(done.len(), 1);
    assert_eq!(done[0].title, "a");
    assert_eq!(done[0].status, "done");
    assert!(get_tasks(&engine, "e".to_string(), false).unwrap().is_empty());
}

#[test]
fn doing_and_done_go_back_the_days_asked() {
    let mut engine = Engine::new();
    let today = today_key(0).unwrap();
    let yesterday = today_key(1).unwrap();
    assert_ne!(today, yesterday);
    engine.create(&yesterday, "late work", None, "1".to_string()).unwrap();
    assert_eq!(
        command_doing(&mut engine, &parts("/doing late work"), None),
        Err("task not found".to_string())
    );
    assert_eq!(engine.list(&yesterday, false)[0].status, "todo");
    assert_eq!(
        command_doing(&mut engine, &parts("/doing late work"), Some(0)),
        Err("task not found".to_string())
    );
    assert_eq!(
        command_doing(&mut engine, &parts("/doing late work"), Some(1)),
        Ok("task active".to_string())
    );
    assert_eq!(engine.list(&yesterday, false)[0].status, "doing");
    assert_eq!(engine.get_active_task().unwrap().title, "late work");
    assert_eq!(
        command_done(&mut engine, &parts("/done late work"), None),
        Err("task not found".to_string())
    );
    assert_eq!(
        command_done(&mut engine, &parts("/done late work"), Some(1)),
        Ok("task moved to done".to_string())
    );
    assert_eq!(titles_of(&engine, &yesterday, true), vec!["late work"]);
    assert!(titles_of(&engine, &today, true).is_empty());
    assert!(engine.get_active_task().is_none());
}

#[test]
fn commands_find_a_day_far_back() {
    let mut engine = Engine::new();
    assert_eq!(
        command_doing(&mut engine, &parts("/doing x"), Some(90_000_000)),
        Err("task not found".to_string())
    );
    assert_eq!(
        command_done(&mut engine, &parts("/done x"), Some(90_000_000)),
        Err("task not found".to_string())
    );
    assert_eq!(
        command_break(&mut engine, &parts("/break x")),
        Err("Task 'x' not found in the to-do list.".to_string())
    );
    assert_eq!(
        command_deleteT(&mut engine, &parts("/deleteT x")),
        Err("Task 'x' not found for deletion.".to_string())
    );
}

#[test]
fn a_refusal_for_want_of_a_day_changes_nothing() {
    let mut engine = Engine::new();
    engine.create("d", "x", None, "1".to_string()).unwrap();
    assert_eq!(
        command_doing(&mut engine, &parts("/doing x"), Some(i64::MAX)),
        Err("logical day out of range".to_string())
    );
    assert_eq!(engine.store().snapshot().len(), 1);
    assert_eq!(engine.list("d", false)[0].status, "todo");
    assert!(engine.get_active_task().is_none());
}

#[test]
fn create_task_refuses_a_title_that_waits_or_is_finished() {
    let mut engine = Engine::new();
    let today = today_key(0).unwrap();
    let first = create_task(&mut engine, "a".to_string(), None).unwrap();
    assert_eq!(first.status, "todo");
    assert_eq!(first.time_spent, 0);
    assert_eq!(create_task(&mut engine, "a".to_string(), None).unwrap_err(), "duplicate title");
    engine.complete(&today, "a").unwrap();
    assert_eq!(create_task(&mut engine, "a".to_string(), None).unwrap_err(), "duplicate title");
    assert_eq!(create_task(&mut engine, "A".to_string(), None).unwrap().title, "A");
    assert_eq!(titles_of(&engine, &today, false), vec!["A"]);
    assert_eq!(titles_of(&engine, &today, true), vec!["a"]);
}
