use rsh::builtins::cd_target;
use rsh::builtins::dispatch;
use rsh::builtins::echo;
use rsh::builtins::exit_code;
use rsh::builtins::get;
use rsh::builtins::has_root;
use rsh::builtins::load;
use rsh::builtins::ls;
use rsh::builtins::pwd;
use rsh::builtins::unset;
use rsh::builtins::Action;
use rsh::builtins::Builtin;
use rsh::ShellError;
use rsh::State;

#[test]
fn test_set() {
    let mut s = State::default();
    s.argv = vec!["set".to_string(), "test".to_string(), "hello world".to_string()];

    let i = rsh::builtins::set(&mut s);

    assert_eq!(i, 0);
    assert_eq!(s.variables.get("test").unwrap(), "hello world");
}

#[test]
fn builtins_test_set() {
    let mut s = State::default();
    s.argv = vec!["set".to_string(), "test".to_string(), "hello world".to_string()];

    let i = rsh::builtins::set(&mut s);

    assert_eq!(i, 0);
    assert_eq!(s.variables.get("test").unwrap(), "hello world");
}

#[test]
fn test_unset() {
    let mut s = State::default();
    s.variables.insert("test".to_string(), "hello world".to_string());
    s.argv = vec!["unset".to_string(), "test".to_string()];

    let i = unset(&mut s);

    assert_eq!(i, 0);
    assert_eq!(s.variables.get("test"), None);
}

#[test]
fn test_get() {
    let mut s = State::default();
    s.variables.insert("test".to_string(), "hello world".to_string());
    s.argv = vec!["get".to_string(), "test".to_string()];

    let i = get(&mut s);

    assert_eq!(i, 0);
}

#[test]
fn test_echo() {
    let mut s = State::default();
    s.argv = vec!["echo".to_string(), "\"Hello world!\"".to_string()];

    let i = get(&mut s);

    assert_eq!(i, 0);
}

#[test]
fn test_pwd() {
    let mut s = State::default();

    s.argv = vec!["pwd".to_string()];

    let i = pwd(&mut s);

    assert_eq!(i, 0);
}

#[test]
fn set_without_value_binds_nothing() {
    let mut s = State::default();
    s.argv = vec!["set".to_string(), "test".to_string()];

    let i = rsh::builtins::set(&mut s);

    assert_eq!(i, 0);
    assert_eq!(s.variables.get("test"), None);
}

#[test]
fn set_overwrites_earlier_binding() {
    let mut s = State::default();
    s.argv = vec!["set".to_string(), "test".to_string(), "first".to_string()];
    rsh::builtins::set(&mut s);
    s.argv = vec!["set".to_string(), "test".to_string(), "second".to_string()];
    rsh::builtins::set(&mut s);

    assert_eq!(s.variables.get("test").unwrap(), "second");
}

#[test]
fn unset_without_name_fails() {
    let mut s = State::default();
    s.argv = vec!["unset".to_string()];

    assert_eq!(unset(&mut s), 1);
}

#[test]
fn get_without_name_fails() {
    let mut s = State::default();
    s.argv = vec!["get".to_string()];

    assert_eq!(get(&mut s), 1);
}

#[test]
fn registry_finds_each_builtin_by_exact_name() {
    let reg = load();
    assert_eq!(reg.find(&"cd".to_string()), Some(Builtin::Cd));
    assert_eq!(reg.find(&"ls".to_string()), Some(Builtin::Ls));
    assert_eq!(reg.find(&"echo".to_string()), Some(Builtin::Echo));
    assert_eq!(reg.find(&"set".to_string()), Some(Builtin::SetVar));
    assert_eq!(reg.find(&"unset".to_string()), Some(Builtin::UnsetVar));
    assert_eq!(reg.find(&"get".to_string()), Some(Builtin::GetVar));
    assert_eq!(reg.find(&"pwd".to_string()), Some(Builtin::Pwd));
    assert_eq!(reg.find(&"exit".to_string()), Some(Builtin::Exit));
    assert_eq!(reg.find(&"vim".to_string()), None);
    assert_eq!(reg.find(&"CD".to_string()), None);
}

#[test]
fn dispatch_routes_by_first_token() {
    let reg = load();
    let empty: Vec<String> = Vec::new();
    assert_eq!(dispatch(&reg, &empty), Action::Reprompt);
    assert_eq!(
        dispatch(&reg, &vec!["set".to_string(), "a".to_string()]),
        Action::Internal(Builtin::SetVar)
    );
    assert_eq!(dispatch(&reg, &vec!["vim".to_string()]), Action::External);
}

#[test]
fn echo_joins_arguments_with_spaces() {
    let mut s = State::default();
    s.argv = vec!["echo".to_string(), "a".to_string(), "b".to_string()];
    let out = echo(&s);
    assert_eq!(out.0, "a b");
    assert!(out.1);
}

#[test]
fn echo_flag_suppresses_newline() {
    let mut s = State::default();
    s.argv = vec![
        "echo".to_string(),
        "-n".to_string(),
        "Hello".to_string(),
        "Dear World".to_string(),
    ];
    let out = echo(&s);
    assert_eq!(out.0, "Hello Dear World");
    assert!(!out.1);
}

#[test]
fn ls_alone_consults_current_directory() {
    let mut s = State::default();
    s.argv = vec!["ls".to_string()];
    assert_eq!(ls(&s), vec!["/".to_string()]);
}

#[test]
fn ls_with_arguments_consults_every_token() {
    let mut s = State::default();
    s.argv = vec!["ls".to_string(), "/a".to_string(), "/b".to_string()];
    assert_eq!(
        ls(&s),
        vec!["ls".to_string(), "/a".to_string(), "/b".to_string()]
    );
}

#[test]
fn cd_target_prefers_the_argument() {
    let argv = vec!["cd".to_string(), "/tmp".to_string()];
    assert_eq!(cd_target(&argv, "/home/someone"), "/tmp");
}

#[test]
fn cd_target_falls_back_to_home() {
    let argv = vec!["cd".to_string()];
    assert_eq!(cd_target(&argv, "/home/someone"), "/home/someone");
}

#[test]
fn has_root_recognizes_absolute_paths() {
    assert!(has_root("/usr/bin"));
    assert!(has_root("/"));
    assert!(!has_root("usr/bin"));
    assert!(!has_root(""));
}

#[test]
fn exit_code_defaults_to_zero() {
    let argv = vec!["exit".to_string()];
    assert_eq!(exit_code(&argv), Ok(0));
}

#[test]
fn exit_code_parses_its_argument() {
    assert_eq!(exit_code(&vec!["exit".to_string(), "42".to_string()]), Ok(42));
    assert_eq!(exit_code(&vec!["exit".to_string(), "-5".to_string()]), Ok(-5));
    assert_eq!(exit_code(&vec!["exit".to_string(), "+7".to_string()]), Ok(7));
    assert_eq!(
        exit_code(&vec!["exit".to_string(), "2147483647".to_string()]),
        Ok(2147483647)
    );
    assert_eq!(
        exit_code(&vec!["exit".to_string(), "-2147483648".to_string()]),
        Ok(-2147483648)
    );
}

#[test]
fn exit_code_rejects_invalid_codes() {
    let bad = Err(ShellError::InvalidExitCode);
    assert_eq!(exit_code(&vec!["exit".to_string(), "abc".to_string()]), bad);
    assert_eq!(exit_code(&vec!["exit".to_string(), "".to_string()]), bad);
    assert_eq!(exit_code(&vec!["exit".to_string(), "-".to_string()]), bad);
    assert_eq!(exit_code(&vec!["exit".to_string(), "12x".to_string()]), bad);
    assert_eq!(
        exit_code(&vec!["exit".to_string(), "2147483648".to_string()]),
        bad
    );
    assert_eq!(
        exit_code(&vec!["exit".to_string(), "-2147483649".to_string()]),
        bad
    );
    assert_eq!(
        exit_code(&vec!["exit".to_string(), "99999999999999".to_string()]),
        bad
    );
}
