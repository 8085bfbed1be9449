use permwatch::config::parse_octal_mode;
use permwatch::config::Config;
use permwatch::paths::path_is_under;
use permwatch::paths::should_process_file;
use permwatch::scan::change_permissions;
use permwatch::scan::check_permissions;
use permwatch::scan::enforce_mode;
use permwatch::scan::run_pass;
use permwatch::scan::FileEntry;

fn entry(path: &str, mode: u32) -> FileEntry {
    FileEntry { path: path.to_string(), mode }
}

fn strings(items: &[&str]) -> Vec<String> {
    items.iter().map(|s| s.to_string()).collect()
}

#[test]
fn parse_octal_mode_accepts_valid_strings() {
    assert_eq!(parse_octal_mode("777"), Some(0o777));
    assert_eq!(parse_octal_mode("644"), Some(0o644));
    assert_eq!(parse_octal_mode("0"), Some(0));
    assert_eq!(parse_octal_mode("007"), Some(7));
    assert_eq!(parse_octal_mode("0770"), Some(0o770));
}

#[test]
fn parse_octal_mode_rejects_invalid_strings() {
    assert_eq!(parse_octal_mode(""), None);
    assert_eq!(parse_octal_mode("8"), None);
    assert_eq!(parse_octal_mode("7a7"), None);
    assert_eq!(parse_octal_mode("1000"), None);
    assert_eq!(parse_octal_mode("-1"), None);
}

#[test]
fn default_config_has_documented_values() {
    let c = Config::default();
    assert_eq!(c.watch_dirs, vec!["./testdir".to_string()]);
    assert_eq!(c.ignore_dirs, vec!["./testdir/ignoreme".to_string()]);
    assert_eq!(c.desired_permission, "777".to_string());
    assert_eq!(c.target_mode(), Some(0o777));
}

#[test]
fn path_is_under_matches_components_not_strings() {
    assert!(path_is_under("foo/bar", "foo"));
    assert!(path_is_under("foo", "foo"));
    assert!(path_is_under("foo/bar/baz.txt", "foo/bar"));
    assert!(!path_is_under("foo2", "foo"));
    assert!(!path_is_under("foo2/bar", "foo"));
    assert!(!path_is_under("bar", "foo"));
    assert!(!path_is_under("fo", "foo"));
}

#[test]
fn path_is_under_handles_trailing_slashes_and_empty_roots() {
    assert!(path_is_under("foo/bar", "foo/"));
    assert!(path_is_under("foo", "foo/"));
    assert!(!path_is_under("foo/bar", ""));
    assert!(!path_is_under("foo/bar", "/"));
}

#[test]
fn should_process_file_skips_ignored_trees() {
    let ignores = strings(&["./testdir/ignoreme", "tmp"]);
    assert!(should_process_file("./testdir/a.txt", &ignores));
    assert!(!should_process_file("./testdir/ignoreme/b.txt", &ignores));
    assert!(!should_process_file("tmp/x", &ignores));
    assert!(should_process_file("tmpfile", &ignores));
    assert!(should_process_file("anything", &Vec::new()));
}

#[test]
fn check_permissions_reports_only_wrong_modes() {
    let entries = vec![entry("a", 0o644), entry("b", 0o777), entry("c", 0o600)];
    let ignores: Vec<String> = Vec::new();
    let violations = check_permissions(&entries, &ignores, 0o644);
    let reported: Vec<(String, u32)> =
        violations.iter().map(|v| (v.path.clone(), v.mode)).collect();
    assert_eq!(reported, vec![("b".to_string(), 0o777), ("c".to_string(), 0o600)]);
}

#[test]
fn check_permissions_never_reports_ignored_paths() {
    let entries = vec![entry("ig/a", 0o777), entry("ig/b", 0o000), entry("ok/c", 0o777)];
    let ignores = strings(&["ig"]);
    let violations = check_permissions(&entries, &ignores, 0o644);
    assert_eq!(violations.len(), 1);
    assert_eq!(violations[0].path, "ok/c".to_string());
    // The same paths stay unreported on a repeated scan, whatever their mode.
    let again = check_permissions(&entries, &ignores, 0o644);
    assert!(again.iter().all(|v| !v.path.starts_with("ig/")));
}

#[test]
fn enforce_mode_overwrites_exactly_the_permission_bits() {
    assert_eq!(enforce_mode(0o600, 0o644), 0o644);
    assert_eq!(enforce_mode(0o100600, 0o644), 0o100644);
    assert_eq!(enforce_mode(0o777, 0o644), 0o644);
    // Not a merge: bits absent from the target are cleared.
    assert_eq!(enforce_mode(0o666, 0o400), 0o400);
}

#[test]
fn enforcing_twice_equals_enforcing_once() {
    for mode in [0o000u32, 0o600, 0o644, 0o777, 0o100600] {
        let once = enforce_mode(mode, 0o644);
        let twice = enforce_mode(once, 0o644);
        assert_eq!(twice, once);
    }
}

#[test]
fn change_permissions_plans_one_fix_per_violation() {
    let entries = vec![entry("x", 0o600), entry("y", 0o100777)];
    let ignores: Vec<String> = Vec::new();
    let violations = check_permissions(&entries, &ignores, 0o644);
    let changes = change_permissions(&violations, 0o644);
    let planned: Vec<(String, u32)> =
        changes.iter().map(|c| (c.path.clone(), c.new_mode)).collect();
    assert_eq!(planned, vec![("x".to_string(), 0o644), ("y".to_string(), 0o100644)]);
}

#[test]
fn compliant_and_ignored_files_stay_untouched() {
    // Watch root with a.txt already compliant and b.txt inside an ignored
    // directory: one pass changes nothing and fixes zero violations.
    let entries = vec![entry("root/a.txt", 0o644), entry("root/ig/b.txt", 0o777)];
    let ignores = strings(&["root/ig"]);
    let violations = check_permissions(&entries, &ignores, 0o644);
    assert_eq!(violations.len(), 0);
    let changes = change_permissions(&violations, 0o644);
    assert_eq!(changes.len(), 0);
    let after = run_pass(&entries, &ignores, 0o644);
    assert_eq!(after.len(), 2);
    assert_eq!(after[0].mode, 0o644);
    assert_eq!(after[1].mode, 0o777);
}

#[test]
fn fixing_then_rescanning_reports_nothing() {
    // c.txt at 600 with target 644: the pass fixes it, and an immediate
    // second pass reports zero violations.
    let entries = vec![entry("root/c.txt", 0o600)];
    let ignores: Vec<String> = Vec::new();
    let violations = check_permissions(&entries, &ignores, 0o644);
    assert_eq!(violations.len(), 1);
    let after = run_pass(&entries, &ignores, 0o644);
    assert_eq!(after[0].mode, 0o644);
    let second = check_permissions(&after, &ignores, 0o644);
    assert_eq!(second.len(), 0);
}

#[test]
fn pass_is_idempotent_on_a_snapshot() {
    let entries = vec![entry("a", 0o600), entry("ig/b", 0o777), entry("c", 0o644)];
    let ignores = strings(&["ig"]);
    let once = run_pass(&entries, &ignores, 0o644);
    let twice = run_pass(&once, &ignores, 0o644);
    let views = |v: &Vec<FileEntry>| -> Vec<(String, u32)> {
        v.iter().map(|e| (e.path.clone(), e.mode)).collect()
    };
    assert_eq!(views(&once), views(&twice));
}
