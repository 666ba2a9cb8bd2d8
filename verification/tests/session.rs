use rsh::State;

#[test]
fn new_session_starts_clean() {
    let s = State::new("/tmp".to_string());
    assert_eq!(s.cwd, "/tmp");
    assert!(s.argv.is_empty());
    assert_eq!(s.argc, 0);
    assert_eq!(s.exit_status, 0);
    assert_eq!(s.variables.get("anything"), None);
}

#[test]
fn default_session_is_rooted() {
    let s = State::default();
    assert_eq!(s.cwd, "/");
    assert_eq!(s.argc, 0);
    assert_eq!(s.exit_status, 0);
}

#[test]
fn set_args_replaces_the_vector_and_count() {
    let mut s = State::default();
    s.set_args(vec!["echo".to_string(), "hi".to_string()]);
    assert_eq!(s.argv, vec!["echo".to_string(), "hi".to_string()]);
    assert_eq!(s.argc, 2);

    s.set_args(Vec::new());
    assert!(s.argv.is_empty());
    assert_eq!(s.argc, 0);
}

#[test]
fn record_status_touches_only_the_status() {
    let mut s = State::new("/tmp".to_string());
    s.record_status(42);
    assert_eq!(s.exit_status, 42);
    assert_eq!(s.cwd, "/tmp");
    s.record_status(1000);
    assert_eq!(s.exit_status, 1000);
}

#[test]
fn set_cwd_moves_the_session() {
    let mut s = State::default();
    s.set_cwd("/usr/local".to_string());
    assert_eq!(s.cwd, "/usr/local");
    assert_eq!(s.exit_status, 0);
}

#[test]
fn prompt_names_the_current_directory() {
    let mut s = State::default();
    s.set_cwd("/home/someone".to_string());
    assert_eq!(s.prompt_text(), "/home/someone -> ");
}

#[test]
fn variables_are_session_owned() {
    let mut s = State::default();
    s.variables.insert("a".to_string(), "1".to_string());
    s.variables.insert("b".to_string(), "2".to_string());
    s.variables.insert("a".to_string(), "3".to_string());
    assert_eq!(s.variables.get("a").unwrap(), "3");
    assert_eq!(s.variables.get("b").unwrap(), "2");
    s.variables.remove("a");
    assert_eq!(s.variables.get("a"), None);
    assert_eq!(s.variables.get("b").unwrap(), "2");
    s.variables.remove("never-bound");
    assert_eq!(s.variables.get("b").unwrap(), "2");
}
