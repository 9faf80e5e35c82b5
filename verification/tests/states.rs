use salieri::states::{
    add_total_time, clear_active_state, command_state, command_state_with, create_state,
    create_state_with, delete_state, delete_state_by, edit_state, edit_state_by,
    get_active_state, get_state_by_name, increment_active_state, increment_total_time,
    list_states, set_active_state, State, States,
};

const ID: &str = "550e8400-e29b-41d4-a716-446655440000";
const ID_VALUE: u128 = 0x550e8400_e29b_41d4_a716_446655440000;

fn parts(line: &str) -> Vec<String> {
    line.split_whitespace().map(|w| w.to_string()).collect()
}

fn sorted_names(states: &States) -> Vec<String> {
    let mut names: Vec<String> = list_states(states).unwrap().iter().map(|s| s.name.clone()).collect();
    names.sort();
    names
}

#[test]
fn create_edit_delete_and_list() {
    let mut states = States::new();
    assert!(list_states(&states).unwrap().is_empty());
    let deep = create_state_with(&mut states, "deep work".to_string(), 1);
    assert_eq!(deep.id, 1);
    assert_eq!(deep.name, "deep work");
    assert_eq!(deep.total_time, 0);
    create_state_with(&mut states, "mail".to_string(), 2);
    assert_eq!(sorted_names(&states), vec!["deep work", "mail"]);
    assert_eq!(edit_state_by(&mut states, 2, "post".to_string()), Ok("edited".to_string()));
    assert_eq!(edit_state_by(&mut states, 9, "x".to_string()), Err("state not found".to_string()));
    assert_eq!(sorted_names(&states), vec!["deep work", "post"]);
    assert_eq!(delete_state_by(&mut states, 1), Ok("deleted".to_string()));
    assert_eq!(delete_state_by(&mut states, 1), Ok("deleted".to_string()));
    assert_eq!(sorted_names(&states), vec!["post"]);
}

#[test]
fn an_identifier_in_use_is_taken_over() {
    let mut states = States::new();
    create_state_with(&mut states, "a".to_string(), 5);
    add_total_time(&mut states, 5, 10);
    create_state_with(&mut states, "b".to_string(), 5);
    let list = list_states(&states).unwrap();
    assert_eq!(list.len(), 1);
    assert_eq!(list[0].name, "b");
    assert_eq!(list[0].total_time, 0);
}

#[test]
fn fresh_states_get_fresh_identifiers() {
    let mut states = States::new();
    let a = create_state(&mut states, "a".to_string()).unwrap();
    let b = create_state(&mut states, "b".to_string()).unwrap();
    assert_ne!(a.id, b.id);
    assert_eq!(list_states(&states).unwrap().len(), 2);
}

#[test]
fn identifiers_are_read_from_text() {
    let mut states = States::new();
    create_state_with(&mut states, "a".to_string(), ID_VALUE);
    assert_eq!(edit_state(&mut states, ID.to_string(), "b".to_string()), Ok("edited".to_string()));
    assert_eq!(get_state_by_name(&states, "b").unwrap().id, ID_VALUE);
    // the same identifier in other writing
    let upper = ID.to_uppercase();
    assert_eq!(edit_state(&mut states, upper, "c".to_string()), Ok("edited".to_string()));
    let simple: String = ID.chars().filter(|c| *c != '-').collect();
    assert_eq!(increment_total_time(&mut states, &simple, 4), Ok(()));
    assert_eq!(get_state_by_name(&states, "c").unwrap().total_time, 4);
    assert_eq!(
        edit_state(&mut states, "650e8400-e29b-41d4-a716-446655440000".to_string(), "d".to_string()),
        Err("state not found".to_string())
    );
    assert_eq!(delete_state(&mut states, ID.to_string()), Ok("deleted".to_string()));
    assert!(list_states(&states).unwrap().is_empty());
}

#[test]
fn what_is_no_identifier_is_refused() {
    let mut states = States::new();
    create_state_with(&mut states, "a".to_string(), ID_VALUE);
    let refusal = edit_state(&mut states, "not an id".to_string(), "b".to_string()).unwrap_err();
    assert!(!refusal.is_empty());
    assert_eq!(delete_state(&mut states, "".to_string()).unwrap_err().is_empty(), false);
    assert!(increment_total_time(&mut states, "xyz", 1).is_err());
    let list = list_states(&states).unwrap();
    assert_eq!(list.len(), 1);
    assert_eq!(list[0].name, "a");
    assert_eq!(list[0].total_time, 0);
}

#[test]
fn time_is_added_and_stops_at_the_largest_value() {
    let mut states = States::new();
    create_state_with(&mut states, "a".to_string(), 1);
    add_total_time(&mut states, 1, 1);
    add_total_time(&mut states, 1, 1);
    add_total_time(&mut states, 7, 1);
    assert_eq!(get_state_by_name(&states, "a").unwrap().total_time, 2);
    add_total_time(&mut states, 1, u64::MAX - 2);
    assert_eq!(get_state_by_name(&states, "a").unwrap().total_time, u64::MAX);
    add_total_time(&mut states, 1, 5);
    assert_eq!(get_state_by_name(&states, "a").unwrap().total_time, u64::MAX);
    assert_eq!(list_states(&states).unwrap().len(), 1);
}

#[test]
fn states_are_found_by_name() {
    let mut states = States::new();
    assert!(get_state_by_name(&states, "a").is_none());
    create_state_with(&mut states, "a".to_string(), 1);
    create_state_with(&mut states, "b".to_string(), 2);
    assert_eq!(get_state_by_name(&states, "b").unwrap().id, 2);
    assert!(get_state_by_name(&states, "c").is_none());
    assert!(get_state_by_name(&states, "").is_none());
}

#[test]
fn the_active_state() {
    let mut states = States::new();
    assert!(get_active_state(&states).is_none());
    assert_eq!(increment_active_state(&mut states, 3), Ok(()));
    let a = create_state_with(&mut states, "a".to_string(), 1);
    set_active_state(&mut states, a);
    assert_eq!(get_active_state(&states).unwrap().name, "a");
    assert_eq!(increment_active_state(&mut states, 3), Ok(()));
    assert_eq!(get_state_by_name(&states, "a").unwrap().total_time, 3);
    // the copy is as it was when the state became active
    assert_eq!(get_active_state(&states).unwrap().total_time, 0);
    delete_state_by(&mut states, 1).unwrap();
    assert_eq!(increment_active_state(&mut states, 3), Ok(()));
    assert!(list_states(&states).unwrap().is_empty());
    clear_active_state(&mut states);
    assert!(get_active_state(&states).is_none());
}

#[test]
fn the_state_command() {
    let mut states = States::new();
    assert_eq!(
        command_state_with(&mut states, &parts("/state"), 1),
        Err("usage: /state [name]".to_string())
    );
    assert_eq!(
        command_state_with(&mut states, &parts("/state deep  work"), 1),
        Ok("state created".to_string())
    );
    assert_eq!(get_state_by_name(&states, "deep work").unwrap().id, 1);
    assert_eq!(
        command_state_with(&mut states, &parts("/state deep work"), 2),
        Err("state already exists".to_string())
    );
    assert_eq!(command_state(&mut states, &parts("/state mail")), Ok("state created".to_string()));
    assert_eq!(command_state(&mut states, &parts("/state mail")), Err("state already exists".to_string()));
    assert_eq!(command_state(&mut states, &parts("/state")), Err("usage: /state [name]".to_string()));
    assert_eq!(sorted_names(&states), vec!["deep work", "mail"]);
}

#[test]
fn states_are_restored_from_a_list() {
    let list = vec![
        State { id: 1, name: "a".to_string(), total_time: 5 },
        State { id: 2, name: "b".to_string(), total_time: 6 },
        State { id: 1, name: "c".to_string(), total_time: 7 },
    ];
    let states = States::restore(list);
    assert_eq!(sorted_names(&states), vec!["b", "c"]);
    assert_eq!(get_state_by_name(&states, "c").unwrap().total_time, 7);
    assert!(get_active_state(&states).is_none());
}
