use permwatch::pass::decide_root;
use permwatch::pass::run_check;
use permwatch::pass::RootOutcome;
use permwatch::pass::ScanOutcome;
use permwatch::scan::FileEntry;

fn entry(path: &str, mode: u32) -> FileEntry {
    FileEntry { path: path.to_string(), mode }
}

#[test]
fn decide_root_reports_a_failed_scan() {
    let ignores: Vec<String> = Vec::new();
    let outcome = decide_root(&ScanOutcome::Failed, &ignores, 0o644);
    assert!(matches!(outcome, RootOutcome::ScanFailed));
}

#[test]
fn decide_root_reports_a_clean_root() {
    let ignores: Vec<String> = Vec::new();
    let scan = ScanOutcome::Scanned(vec![entry("a", 0o644), entry("b", 0o644)]);
    let outcome = decide_root(&scan, &ignores, 0o644);
    assert!(matches!(outcome, RootOutcome::Clean));
}

#[test]
fn decide_root_plans_fixes_for_violations() {
    let ignores: Vec<String> = Vec::new();
    let scan = ScanOutcome::Scanned(vec![entry("a", 0o600)]);
    let outcome = decide_root(&scan, &ignores, 0o644);
    match outcome {
        RootOutcome::Fixes(changes) => {
            assert_eq!(changes.len(), 1);
            assert_eq!(changes[0].path, "a".to_string());
            assert_eq!(changes[0].new_mode, 0o644);
        }
        _ => panic!("expected a plan of fixes"),
    }
}

#[test]
fn failed_root_does_not_stop_later_roots() {
    // Root A fails to scan; root B, listed after it, is still scanned and
    // its violation still fixed in the same pass.
    let ignores: Vec<String> = Vec::new();
    let scans = vec![
        ScanOutcome::Failed,
        ScanOutcome::Scanned(vec![entry("b/wrong.txt", 0o777)]),
    ];
    let outcomes = run_check(&scans, &ignores, 0o644);
    assert_eq!(outcomes.len(), 2);
    assert!(matches!(outcomes[0], RootOutcome::ScanFailed));
    match &outcomes[1] {
        RootOutcome::Fixes(changes) => {
            assert_eq!(changes.len(), 1);
            assert_eq!(changes[0].path, "b/wrong.txt".to_string());
            assert_eq!(changes[0].new_mode, 0o644);
        }
        _ => panic!("root after a failed root was not fixed"),
    }
}

#[test]
fn run_check_decides_every_root_in_order() {
    let ignores = vec!["ig".to_string()];
    let scans = vec![
        ScanOutcome::Scanned(vec![entry("a", 0o644)]),
        ScanOutcome::Failed,
        ScanOutcome::Scanned(vec![entry("ig/x", 0o777), entry("c", 0o600)]),
    ];
    let outcomes = run_check(&scans, &ignores, 0o644);
    assert_eq!(outcomes.len(), 3);
    assert!(matches!(outcomes[0], RootOutcome::Clean));
    assert!(matches!(outcomes[1], RootOutcome::ScanFailed));
    match &outcomes[2] {
        RootOutcome::Fixes(changes) => {
            assert_eq!(changes.len(), 1);
            assert_eq!(changes[0].path, "c".to_string());
        }
        _ => panic!("third root should have exactly one fix"),
    }
}
