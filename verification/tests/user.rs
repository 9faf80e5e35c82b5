use salieri::user::{increment_pomodoros_done, increment_tasks_done, User};

#[test]
fn a_new_user_has_done_nothing() {
    let user = User::default();
    assert_eq!(user.tasks_done, 0);
    assert_eq!(user.pomodoro_done, 0);
    assert_eq!(user.time_in_salieri, 0);
}

#[test]
fn finished_tasks_are_counted() {
    let mut user = User { tasks_done: 9, pomodoro_done: 3, time_in_salieri: 77 };
    assert_eq!(increment_tasks_done(&mut user), Ok("tasks done: 10".to_string()));
    assert_eq!(user.tasks_done, 10);
    assert_eq!(user.pomodoro_done, 3);
    assert_eq!(user.time_in_salieri, 77);
    let copy = user.clone();
    assert_eq!(copy.tasks_done, 10);
}

#[test]
fn completed_sessions_are_counted() {
    let mut user = User::default();
    assert_eq!(increment_pomodoros_done(&mut user), Ok("tasks done: 1".to_string()));
    assert_eq!(increment_pomodoros_done(&mut user), Ok("tasks done: 2".to_string()));
    assert_eq!(user.pomodoro_done, 2);
    assert_eq!(user.tasks_done, 0);
}

#[test]
fn counters_stop_at_the_largest_value() {
    let mut user = User { tasks_done: u64::MAX, pomodoro_done: u64::MAX - 1, time_in_salieri: 0 };
    assert_eq!(increment_tasks_done(&mut user), Ok("tasks done: 18446744073709551615".to_string()));
    assert_eq!(user.tasks_done, u64::MAX);
    increment_pomodoros_done(&mut user).unwrap();
    increment_pomodoros_done(&mut user).unwrap();
    assert_eq!(user.pomodoro_done, u64::MAX);
}
