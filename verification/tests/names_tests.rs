use codex_monitor_daemon::names::{is_missing_worktree_error, normalize_git_path,
    sanitize_worktree_name, should_skip_dir, unique_branch_name, unique_worktree_path,
    unique_worktree_path_for_rename, worktree_root_dir};

#[test]
fn sanitize_worktree_name_rewrites_specials() {
    assert_eq!(sanitize_worktree_name("feature/new-thing"), "feature-new-thing");
    assert_eq!(sanitize_worktree_name("///"), "worktree");
    assert_eq!(sanitize_worktree_name("--branch--"), "branch");
}

#[test]
fn sanitize_keeps_safe_characters() {
    assert_eq!(sanitize_worktree_name("release_1.2"), "release_1.2");
    assert_eq!(sanitize_worktree_name("a b\tc"), "a-b-c");
    assert_eq!(sanitize_worktree_name(""), "worktree");
}

#[test]
fn normalize_git_path_rewrites_backslashes() {
    assert_eq!(normalize_git_path("a\\b\\c.txt"), "a/b/c.txt");
    assert_eq!(normalize_git_path("plain/path"), "plain/path");
}

#[test]
fn should_skip_dir_names() {
    assert!(should_skip_dir(".git"));
    assert!(should_skip_dir("node_modules"));
    assert!(should_skip_dir("dist"));
    assert!(should_skip_dir("target"));
    assert!(should_skip_dir("release-artifacts"));
    assert!(!should_skip_dir("src"));
}

#[test]
fn missing_worktree_error_is_detected() {
    assert!(is_missing_worktree_error("fatal: '/x' is not a working tree"));
    assert!(!is_missing_worktree_error("fatal: repository not found"));
}

#[test]
fn unique_worktree_path_probes_suffixes() {
    let occupied: Vec<String> = vec!["/data/worktrees/p/feat".to_string()];
    let r = unique_worktree_path("/data/worktrees/p", "feat", &occupied).unwrap();
    assert_eq!(r, "/data/worktrees/p/feat-2");

    let free: Vec<String> = Vec::new();
    let r2 = unique_worktree_path("/data/worktrees/p", "feat", &free).unwrap();
    assert_eq!(r2, "/data/worktrees/p/feat");
}

#[test]
fn unique_worktree_path_for_rename_allows_current() {
    let occupied: Vec<String> = vec!["/w/feat".to_string()];
    let r = unique_worktree_path_for_rename("/w", "feat", "/w/feat", &occupied).unwrap();
    assert_eq!(r, "/w/feat");
}

#[test]
fn rename_collision_picks_desired_when_free() {
    // Current branch feat-3; feat-2 exists; the desired name feat is free.
    let taken: Vec<String> = vec!["feat-2".to_string(), "feat-3".to_string()];
    let (name, suffixed) = unique_branch_name("feat", &taken).unwrap();
    assert_eq!(name, "feat");
    assert!(!suffixed);
}

#[test]
fn unique_branch_name_suffixes_when_taken() {
    let taken: Vec<String> = vec!["feat".to_string(), "feat-2".to_string()];
    let (name, suffixed) = unique_branch_name("feat", &taken).unwrap();
    assert_eq!(name, "feat-3");
    assert!(suffixed);
}

#[test]
fn worktree_root_is_under_data_dir() {
    assert_eq!(worktree_root_dir("/data", "abc"), "/data/worktrees/abc");
}
