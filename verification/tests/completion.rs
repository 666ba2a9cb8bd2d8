use rsh::input::Input;
use rsh::State;

fn successor(i: &Input, key: &str) -> Option<String> {
    i.lookup(&key.to_string()).cloned()
}

#[test]
fn builtin_names_feed_the_index() {
    let s = State::default();
    let i = Input::from(&s, "", ':');
    // With no search directories the candidate words are exactly the
    // internal-command names, bound in load order: cd, ls, echo, set,
    // unset, get, pwd, exit.
    assert_eq!(successor(&i, "c"), Some("h".to_string())); // "echo" overrides "cd"
    assert_eq!(successor(&i, "l"), Some("s".to_string()));
    assert_eq!(successor(&i, "h"), Some("o".to_string()));
    assert_eq!(successor(&i, "e"), Some("x".to_string())); // "exit" binds last
    assert_eq!(successor(&i, "u"), Some("n".to_string()));
    assert_eq!(successor(&i, "n"), Some("s".to_string()));
    assert_eq!(successor(&i, "g"), Some("e".to_string()));
    assert_eq!(successor(&i, "p"), Some("w".to_string()));
    assert_eq!(successor(&i, "w"), Some("d".to_string()));
    assert_eq!(successor(&i, "x"), Some("i".to_string()));
    assert_eq!(successor(&i, "i"), Some("t".to_string()));
    assert_eq!(successor(&i, "d"), None);
    assert_eq!(successor(&i, "z"), None);
}

#[test]
fn path_components_feed_the_index_before_builtins() {
    let s = State::default();
    let i = Input::from(&s, "/usr/bin:/opt", ':');
    // Components in order: usr, bin, opt; then the builtin names.
    assert_eq!(successor(&i, "b"), Some("i".to_string())); // from "bin"
    assert_eq!(successor(&i, "o"), Some("p".to_string())); // from "opt"
    assert_eq!(successor(&i, "u"), Some("n".to_string())); // "unset" overrides "usr"
    assert_eq!(successor(&i, "r"), None);
}
