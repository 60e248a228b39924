use codex_monitor_daemon::args::{default_data_dir, parse_args, usage, DaemonConfig, ParseOutcome};
use codex_monitor_daemon::git::{choose_push_remote, find_remote_hosting, git_failure_detail,
    push_rename_args, set_upstream_args, validate_rename_upstream, worktree_add_args, RemoteProbe};
use codex_monitor_daemon::settings::{merge_app_settings, parse_workspace_settings, AppSettings};
use codex_monitor_daemon::json::JsonValue;

fn argv(items: &[&str]) -> Vec<String> {
    items.iter().map(|s| s.to_string()).collect()
}

fn run(args: &[&str], env: Option<&str>) -> Result<ParseOutcome, String> {
    parse_args(&argv(args), env.map(|s| s.to_string()))
}

fn config(args: &[&str], env: Option<&str>) -> DaemonConfig {
    match run(args, env).unwrap() {
        ParseOutcome::Run(c) => c,
        ParseOutcome::Help => panic!("unexpected help"),
    }
}

#[test]
fn token_flag_and_defaults() {
    let c = config(&["--token", "T"], None);
    assert_eq!(c.listen, "127.0.0.1:4732");
    assert_eq!(c.token.as_deref(), Some("T"));
    assert!(c.data_dir.is_none());
}

#[test]
fn missing_token_is_an_error() {
    let err = run(&[], None).unwrap_err();
    assert_eq!(
        err,
        "Missing --token (or set CODEX_MONITOR_DAEMON_TOKEN). Use --insecure-no-auth for local dev only."
    );
}

#[test]
fn insecure_no_auth_clears_the_token() {
    let c = config(&["--token", "T", "--insecure-no-auth"], None);
    assert!(c.token.is_none());
}

#[test]
fn env_token_is_trimmed_and_used() {
    let c = config(&[], Some("  S  "));
    assert_eq!(c.token.as_deref(), Some("S"));
    let err = run(&[], Some("   ")).unwrap_err();
    assert!(err.starts_with("Missing --token"));
}

#[test]
fn help_and_unknown_and_values() {
    assert!(matches!(run(&["-h"], None).unwrap(), ParseOutcome::Help));
    assert!(matches!(run(&["--help"], None).unwrap(), ParseOutcome::Help));
    assert_eq!(run(&["--listen"], None).unwrap_err(), "--listen requires a value");
    assert_eq!(run(&["--token", " "], None).unwrap_err(), "--token requires a non-empty value");
    assert_eq!(run(&["--wat"], None).unwrap_err(), "Unknown argument: --wat");
    let c = config(&["--listen", "0.0.0.0:9", "--data-dir", "/tmp/d", "--token", "T"], None);
    assert_eq!(c.listen, "0.0.0.0:9");
    assert_eq!(c.data_dir.as_deref(), Some("/tmp/d"));
    assert!(!usage().is_empty());
}

#[test]
fn data_dir_defaults() {
    assert_eq!(
        default_data_dir(Some("/xdg".to_string()), Some("/home/u".to_string())),
        "/xdg/codex-monitor-daemon"
    );
    assert_eq!(
        default_data_dir(Some("  ".to_string()), Some("/home/u".to_string())),
        "/home/u/.local/share/codex-monitor-daemon"
    );
    assert_eq!(
        default_data_dir(None, None),
        "./.local/share/codex-monitor-daemon"
    );
}

#[test]
fn git_error_detail_prefers_stderr() {
    assert_eq!(git_failure_detail("out\n", " err "), "err");
    assert_eq!(git_failure_detail(" out ", "  "), "out");
    assert_eq!(git_failure_detail("  ", ""), "Git command failed.");
}

#[test]
fn remote_selection_prefers_origin_order() {
    let probes = vec![
        RemoteProbe { name: "origin".to_string(), hosts_branch: false },
        RemoteProbe { name: "fork".to_string(), hosts_branch: true },
        RemoteProbe { name: "other".to_string(), hosts_branch: true },
    ];
    assert_eq!(find_remote_hosting(&probes).as_deref(), Some("fork"));

    assert_eq!(choose_push_remote(Some("fork".to_string()), true).unwrap(), "fork");
    assert_eq!(choose_push_remote(None, true).unwrap(), "origin");
    assert_eq!(
        choose_push_remote(None, false).unwrap_err(),
        "No git remote configured for this worktree."
    );
}

#[test]
fn upstream_rename_validation_and_plan() {
    assert_eq!(validate_rename_upstream(" ", "b").unwrap_err(), "Branch name is required.");
    assert_eq!(validate_rename_upstream("x", " x ").unwrap_err(), "Branch name is unchanged.");
    let (o, n) = validate_rename_upstream(" old ", "new").unwrap();
    assert_eq!(o, "old");
    assert_eq!(n, "new");

    let plan = push_rename_args("origin", "old", "new", true);
    assert_eq!(plan.len(), 2);
    assert_eq!(plan[0], vec!["push", "origin", "new:new"]);
    assert_eq!(plan[1], vec!["push", "origin", ":old"]);
    let plain = push_rename_args("origin", "old", "new", false);
    assert_eq!(plain, vec![vec!["push", "origin", "new"]]);

    assert_eq!(
        set_upstream_args("origin", "new"),
        vec!["branch", "--set-upstream-to", "origin/new", "new"]
    );
}

#[test]
fn worktree_create_plan_without_branch_or_remote() {
    // No local branch `feat` and no remote: a fresh `-b` worktree add.
    let args = worktree_add_args("feat", "/w/feat", false, None);
    assert_eq!(args, vec!["worktree", "add", "-b", "feat", "/w/feat"]);
    let from_remote = worktree_add_args("feat", "/w/feat", false, Some("origin/feat"));
    assert_eq!(from_remote, vec!["worktree", "add", "-b", "feat", "/w/feat", "origin/feat"]);
    let local = worktree_add_args("feat", "/w/feat", true, None);
    assert_eq!(local, vec!["worktree", "add", "/w/feat", "feat"]);
}

#[test]
fn app_settings_merge_and_parse() {
    let base = AppSettings::default();
    let merged = merge_app_settings(&base, Some(true), None, Some(false), None);
    assert!(merged.experimental_collab_enabled);
    assert!(!merged.experimental_steer_enabled);
    assert!(merged.codex_bin.is_none());

    let v = JsonValue::Object(vec![
        ("sidebar_collapsed".to_string(), JsonValue::Bool(true)),
        ("sort_order".to_string(), JsonValue::Uint(4)),
    ]);
    let ws = parse_workspace_settings(&v).unwrap();
    assert!(ws.sidebar_collapsed);
    assert_eq!(ws.sort_order, Some(4));

    let bad = JsonValue::Object(vec![("sort_order".to_string(), JsonValue::Text("x".to_string()))]);
    assert_eq!(parse_workspace_settings(&bad).unwrap_err(), "invalid `settings`");
}
