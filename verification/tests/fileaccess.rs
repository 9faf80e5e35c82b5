use salieri::fileaccess::{expand_tilde, process_file};

#[test]
fn paths_with_a_tilde_are_taken_from_home() {
    assert_eq!(expand_tilde("~"), Ok("".to_string()));
    assert_eq!(expand_tilde("~/"), Ok("".to_string()));
    assert_eq!(expand_tilde("~/notes/a.txt"), Ok("notes/a.txt".to_string()));
    assert_eq!(expand_tilde("~/ä/ö.txt"), Ok("ä/ö.txt".to_string()));
    assert_eq!(expand_tilde("~x"), Err("something weird happened".to_string()));
    assert_eq!(expand_tilde("notes"), Err("something weird happened".to_string()));
    assert_eq!(expand_tilde(""), Err("something weird happened".to_string()));
}

#[test]
fn other_names_lie_in_the_files_directory() {
    assert_eq!(process_file("a.txt"), Ok("salieri_files/a.txt".to_string()));
    assert_eq!(process_file("my notes/ä.txt"), Ok("salieri_files/my notes/ä.txt".to_string()));
    assert_eq!(process_file("/etc/passwd"), Ok("salieri_files//etc/passwd".to_string()));
    assert_eq!(process_file("~/a.txt"), Ok("a.txt".to_string()));
    assert_eq!(process_file("~"), Ok("".to_string()));
    assert_eq!(process_file("~a"), Err("something weird happened".to_string()));
    assert_eq!(process_file(""), Err("no good!".to_string()));
}
