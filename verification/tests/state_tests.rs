use codex_monitor_daemon::settings::AppSettings;
use codex_monitor_daemon::state::{ChildOutcome, DaemonState};
use codex_monitor_daemon::workspace::{make_workspace_entry, make_worktree_entry, WorkspaceKind,
    WorkspaceSettings};

fn state_with_main(id: &str, path: &str) -> DaemonState {
    let mut st = DaemonState::new(AppSettings::default());
    let entry = make_workspace_entry(path, None, id.to_string());
    let info = st.insert_workspace(entry);
    assert!(info.connected);
    st
}

#[test]
fn add_workspace_then_listing_shows_connected() {
    let st = state_with_main("id-1", "/repos/alpha");
    let listing = st.list_workspaces();
    assert_eq!(listing.len(), 1);
    assert_eq!(listing[0].id, "id-1");
    assert_eq!(listing[0].name, "alpha");
    assert!(listing[0].connected);
    assert!(matches!(listing[0].kind, WorkspaceKind::Main));
}

#[test]
fn kill_then_connect_round_trip() {
    let mut st = state_with_main("id-1", "/repos/alpha");
    st.kill_session("id-1");
    let listing = st.list_workspaces();
    assert!(!listing[0].connected);

    let plan = st.connect_workspace_plan("id-1").unwrap();
    let entry = plan.expect("a disconnected workspace needs a spawn");
    assert_eq!(entry.id, "id-1");
    st.mark_connected("id-1");
    let listing = st.list_workspaces();
    assert!(listing[0].connected);

    // Connecting while already connected is a no-op plan.
    let again = st.connect_workspace_plan("id-1").unwrap();
    assert!(again.is_none());
}

#[test]
fn connect_unknown_workspace_fails() {
    let st = DaemonState::new(AppSettings::default());
    let err = st.connect_workspace_plan("nope").unwrap_err();
    assert_eq!(err, "workspace not found");
}

#[test]
fn update_workspace_settings_is_idempotent() {
    let mut st = state_with_main("id-1", "/repos/alpha");
    let settings = WorkspaceSettings { sidebar_collapsed: true, sort_order: Some(3) };
    let first = st.update_workspace_settings("id-1", settings.clone()).unwrap();
    assert!(first.settings.sidebar_collapsed);
    assert_eq!(first.settings.sort_order, Some(3));
    let snapshot: Vec<String> = st.list_workspaces().into_iter().map(|w| w.id).collect();

    let second = st.update_workspace_settings("id-1", settings).unwrap();
    assert!(second.settings.sidebar_collapsed);
    assert_eq!(second.settings.sort_order, Some(3));
    let snapshot2: Vec<String> = st.list_workspaces().into_iter().map(|w| w.id).collect();
    assert_eq!(snapshot, snapshot2);
    assert_eq!(st.workspaces.len(), 1);
    assert!(st.workspaces[0].settings.sidebar_collapsed);
    assert_eq!(st.workspaces[0].settings.sort_order, Some(3));
}

#[test]
fn update_settings_unknown_workspace_fails() {
    let mut st = DaemonState::new(AppSettings::default());
    let settings = WorkspaceSettings { sidebar_collapsed: false, sort_order: None };
    let err = st.update_workspace_settings("missing", settings).unwrap_err();
    assert_eq!(err, "workspace not found");
}

#[test]
fn update_codex_bin_changes_only_that_field() {
    let mut st = state_with_main("id-1", "/repos/alpha");
    let info = st.update_workspace_codex_bin("id-1", Some("/bin/codex".to_string())).unwrap();
    assert_eq!(info.codex_bin.as_deref(), Some("/bin/codex"));
    assert_eq!(info.name, "alpha");
}

#[test]
fn rename_unchanged_is_refused_without_mutation() {
    let mut st = state_with_main("parent", "/repos/alpha");
    let parent = st.workspaces[0].clone();
    let wt = make_worktree_entry(&parent, "feat", "/data/worktrees/parent/feat", "wt".to_string());
    st.insert_workspace(wt);

    let err = st.validate_rename_worktree("wt", " feat ").unwrap_err();
    assert_eq!(err, "Branch name is unchanged.");
    assert_eq!(st.workspaces.len(), 2);
    assert_eq!(st.workspaces[1].name, "feat");
}

#[test]
fn rename_validation_errors() {
    let st = state_with_main("parent", "/repos/alpha");
    assert_eq!(st.validate_rename_worktree("parent", "  ").unwrap_err(), "Branch name is required.");
    assert_eq!(st.validate_rename_worktree("nope", "x").unwrap_err(), "workspace not found");
    assert_eq!(st.validate_rename_worktree("parent", "x").unwrap_err(), "Not a worktree workspace.");
}

#[test]
fn apply_rename_rewrites_entry_in_place() {
    let mut st = state_with_main("parent", "/repos/alpha");
    let parent = st.workspaces[0].clone();
    let wt = make_worktree_entry(&parent, "old", "/data/worktrees/parent/old", "wt".to_string());
    st.insert_workspace(wt);

    let snapshot = st.apply_rename_worktree("wt", "new", "/data/worktrees/parent/new");
    assert_eq!(snapshot.id, "wt");
    assert_eq!(snapshot.name, "new");
    assert_eq!(snapshot.path, "/data/worktrees/parent/new");
    assert_eq!(snapshot.worktree.unwrap().branch, "new");
    assert_eq!(snapshot.parent_id.as_deref(), Some("parent"));
}

#[test]
fn add_worktree_validation() {
    let st = state_with_main("parent", "/repos/alpha");
    assert_eq!(st.validate_add_worktree("parent", "  ").unwrap_err(), "Branch name is required.");
    assert_eq!(st.validate_add_worktree("nope", "b").unwrap_err(), "parent workspace not found");
    let (p, trimmed) = st.validate_add_worktree("parent", " feat ").unwrap();
    assert_eq!(p.id, "parent");
    assert_eq!(trimmed, "feat");
}

#[test]
fn worktree_cannot_parent_a_worktree() {
    let mut st = state_with_main("parent", "/repos/alpha");
    let parent = st.workspaces[0].clone();
    let wt = make_worktree_entry(&parent, "feat", "/w/feat", "wt".to_string());
    st.insert_workspace(wt);
    assert_eq!(
        st.validate_add_worktree("wt", "again").unwrap_err(),
        "Cannot create a worktree from another worktree."
    );
}

#[test]
fn remove_workspace_partial_failure_keeps_parent() {
    let mut st = state_with_main("parent", "/repos/alpha");
    let parent = st.workspaces[0].clone();
    let a = make_worktree_entry(&parent, "a", "/w/a", "wt-a".to_string());
    let b = make_worktree_entry(&parent, "b", "/w/b", "wt-b".to_string());
    st.insert_workspace(a);
    st.insert_workspace(b);

    let (entry, children) = st.validate_remove_workspace("parent").unwrap();
    assert_eq!(entry.id, "parent");
    assert_eq!(children.len(), 2);

    let results = vec![
        ChildOutcome { id: "wt-a".to_string(), error: None },
        ChildOutcome { id: "wt-b".to_string(), error: Some("disk on fire".to_string()) },
    ];
    let err = st.apply_remove_workspace("parent", &results).unwrap_err();
    assert_eq!(
        err,
        "Failed to remove one or more worktrees; parent workspace was not removed.\n- wt-b: disk on fire"
    );
    let ids: Vec<String> = st.list_workspaces().into_iter().map(|w| w.id).collect();
    assert!(ids.contains(&"parent".to_string()));
    assert!(ids.contains(&"wt-b".to_string()));
    assert!(!ids.contains(&"wt-a".to_string()));
}

#[test]
fn remove_workspace_full_success_removes_parent() {
    let mut st = state_with_main("parent", "/repos/alpha");
    let parent = st.workspaces[0].clone();
    let a = make_worktree_entry(&parent, "a", "/w/a", "wt-a".to_string());
    st.insert_workspace(a);

    let results = vec![ChildOutcome { id: "wt-a".to_string(), error: None }];
    st.apply_remove_workspace("parent", &results).unwrap();
    assert_eq!(st.list_workspaces().len(), 0);
}

#[test]
fn remove_workspace_rejects_worktree_target() {
    let mut st = state_with_main("parent", "/repos/alpha");
    let parent = st.workspaces[0].clone();
    let wt = make_worktree_entry(&parent, "feat", "/w/feat", "wt".to_string());
    st.insert_workspace(wt);
    assert_eq!(
        st.validate_remove_workspace("wt").unwrap_err(),
        "Use remove_worktree for worktree agents."
    );
}

#[test]
fn fresh_ids_are_hyphenated_and_unused() {
    let st = state_with_main("id-1", "/repos/alpha");
    let id = codex_monitor_daemon::workspace::fresh_workspace_id(&st.workspaces)
        .expect("an id should be found");
    assert_eq!(id.chars().count(), 36);
    assert_ne!(id, "id-1");
}

#[test]
fn workspace_names_come_from_the_final_path_component() {
    let e = make_workspace_entry("/repos/alpha/", None, "a".to_string());
    assert_eq!(e.name, "alpha");
    let root = make_workspace_entry("/", None, "b".to_string());
    assert_eq!(root.name, "Workspace");
    let dots = make_workspace_entry("/repos/..", None, "c".to_string());
    assert_eq!(dots.name, "Workspace");
}

#[test]
fn passthrough_requires_a_connected_workspace() {
    let mut st = state_with_main("id-1", "/repos/alpha");
    assert!(st.require_connected("id-1").is_ok());
    st.kill_session("id-1");
    assert_eq!(st.require_connected("id-1").unwrap_err(), "workspace not connected");
}

#[test]
fn remove_worktree_drops_entry_and_session() {
    let mut st = state_with_main("parent", "/repos/alpha");
    let parent = st.workspaces[0].clone();
    let wt = make_worktree_entry(&parent, "feat", "/w/feat", "wt".to_string());
    st.insert_workspace(wt);

    let (entry, par) = st.find_worktree_and_parent("wt").unwrap();
    assert_eq!(entry.id, "wt");
    assert_eq!(par.id, "parent");

    st.remove_worktree_entry("wt");
    let listing = st.list_workspaces();
    assert_eq!(listing.len(), 1);
    assert_eq!(listing[0].id, "parent");
}
