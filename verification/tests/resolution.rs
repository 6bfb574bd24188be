use gemini_ui::invoke::Platform;
use gemini_ui::resolve::{candidates, select_executable, uses_command_lookup, Anchor, Candidate};

fn strings(items: &[&str]) -> Vec<String> {
    items.iter().map(|s| s.to_string()).collect()
}

#[test]
fn windows_candidates_in_order() {
    let parts = strings(&["Google", "Gemini", "gemini.exe"]);
    assert_eq!(
        candidates(Platform::Windows),
        vec![
            Candidate { anchor: Anchor::ProgramFiles, parts: parts.clone() },
            Candidate { anchor: Anchor::ProgramFilesX86, parts: parts.clone() },
            Candidate { anchor: Anchor::LocalAppData, parts },
        ]
    );
}

#[test]
fn unix_candidates_in_order() {
    let expected = vec![
        Candidate { anchor: Anchor::Root, parts: strings(&["usr", "local", "bin", "gemini"]) },
        Candidate { anchor: Anchor::Root, parts: strings(&["usr", "bin", "gemini"]) },
        Candidate { anchor: Anchor::Home, parts: strings(&[".local", "bin", "gemini"]) },
    ];
    assert_eq!(candidates(Platform::Linux), expected);
    assert_eq!(candidates(Platform::MacOs), expected);
    assert!(candidates(Platform::Other).is_empty());
}

#[test]
fn only_windows_asks_the_command_lookup() {
    assert!(uses_command_lookup(Platform::Windows));
    assert!(!uses_command_lookup(Platform::Linux));
    assert!(!uses_command_lookup(Platform::MacOs));
    assert!(!uses_command_lookup(Platform::Other));
}

#[test]
fn nothing_found_is_none() {
    let paths = strings(&["/usr/local/bin/gemini", "/usr/bin/gemini", "/home/u/.local/bin/gemini"]);
    assert_eq!(select_executable(None, &paths, &vec![false, false, false]), None);
    assert_eq!(select_executable(None, &vec![], &vec![]), None);
    assert_eq!(select_executable(Some(String::new()), &paths, &vec![false, false, false]), None);
}

#[test]
fn lookup_wins_over_candidates() {
    let paths = strings(&["a", "b"]);
    assert_eq!(
        select_executable(Some("C:\\x\\gemini.cmd".to_string()), &paths, &vec![true, true]),
        Some("C:\\x\\gemini.cmd".to_string())
    );
}

#[test]
fn empty_lookup_falls_back_to_candidates() {
    let paths = strings(&["a", "b"]);
    assert_eq!(
        select_executable(Some(String::new()), &paths, &vec![false, true]),
        Some("b".to_string())
    );
}

#[test]
fn first_existing_candidate_wins() {
    let paths = strings(&["a", "b", "c"]);
    assert_eq!(select_executable(None, &paths, &vec![false, true, true]), Some("b".to_string()));
    assert_eq!(select_executable(None, &paths, &vec![true, true, true]), Some("a".to_string()));
    assert_eq!(select_executable(None, &paths, &vec![false, false, true]), Some("c".to_string()));
}

#[test]
fn missing_probe_results_count_as_absent() {
    let paths = strings(&["a", "b", "c"]);
    assert_eq!(select_executable(None, &paths, &vec![false]), None);
    assert_eq!(select_executable(None, &paths, &vec![false, false, false, true]), None);
    assert_eq!(select_executable(None, &strings(&["a"]), &vec![false, true]), None);
}
