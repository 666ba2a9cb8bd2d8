use rsh::resolver::exec_status;
use rsh::resolver::resolve;
use rsh::resolver::split_on_char;
use rsh::resolver::DirListing;
use rsh::resolver::SpawnOutcome;
use rsh::resolver::FAILURE_STATUS;
use rsh::State;

fn listing(dir: &str, entries: &[&str]) -> DirListing {
    DirListing {
        dir: dir.to_string(),
        entries: entries.iter().map(|e| e.to_string()).collect(),
    }
}

#[test]
fn split_keeps_empty_segments() {
    assert_eq!(
        split_on_char("a:b:", ':'),
        vec!["a".to_string(), "b".to_string(), "".to_string()]
    );
    assert_eq!(split_on_char("a::b", ':'), vec!["a".to_string(), "".to_string(), "b".to_string()]);
}

#[test]
fn exec_paths_splits_on_the_separator() {
    let s = State::default();
    assert_eq!(
        s.exec_paths("/usr/bin:/bin", ':'),
        vec!["/usr/bin".to_string(), "/bin".to_string()]
    );
    assert_eq!(
        s.exec_paths("C:\\one;C:\\two", ';'),
        vec!["C:\\one".to_string(), "C:\\two".to_string()]
    );
}

#[test]
fn empty_path_variable_yields_no_directories() {
    let s = State::default();
    let dirs = s.exec_paths("", ':');
    assert!(dirs.is_empty());
}

#[test]
fn empty_search_list_resolves_nothing_and_fails_with_the_distinguished_status() {
    let listings: Vec<DirListing> = Vec::new();
    assert_eq!(resolve("ls", &listings), None);
    assert_eq!(resolve("anything-at-all", &listings), None);
    assert_eq!(exec_status(&SpawnOutcome::NotFound), 1000);
    assert_eq!(FAILURE_STATUS, 1000);
}

#[test]
fn first_directory_match_wins_over_later_directories() {
    let listings = vec![
        listing("/first", &["alpha", "vim"]),
        listing("/second", &["vim", "beta"]),
    ];
    assert_eq!(resolve("vim", &listings), Some((0, 1)));
}

#[test]
fn first_entry_in_enumeration_order_wins_within_a_directory() {
    let listings = vec![listing("/dir", &["tool", "tool"])];
    assert_eq!(resolve("tool", &listings), Some((0, 0)));
}

#[test]
fn resolution_scans_directories_in_listed_order() {
    let listings = vec![
        listing("/first", &["alpha"]),
        listing("/second", &["beta"]),
        listing("/third", &["gamma"]),
    ];
    assert_eq!(resolve("gamma", &listings), Some((2, 0)));
    assert_eq!(resolve("delta", &listings), None);
}

#[test]
fn match_is_by_exact_name_only() {
    let listings = vec![listing("/dir", &["vim", "vimdiff"])];
    assert_eq!(resolve("vimdiff", &listings), Some((0, 1)));
    assert_eq!(resolve("vi", &listings), None);
}

#[test]
fn exec_status_passes_exit_codes_through() {
    assert_eq!(exec_status(&SpawnOutcome::Exited(0)), 0);
    assert_eq!(exec_status(&SpawnOutcome::Exited(17)), 17);
    assert_eq!(exec_status(&SpawnOutcome::Exited(-3)), -3);
}

#[test]
fn exec_status_maps_every_failure_to_the_distinguished_value() {
    assert_eq!(exec_status(&SpawnOutcome::NotFound), 1000);
    assert_eq!(exec_status(&SpawnOutcome::SpawnFailed), 1000);
    assert_eq!(exec_status(&SpawnOutcome::NoExitCode), 1000);
}
