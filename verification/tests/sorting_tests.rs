use codex_monitor_daemon::sorting::sort_workspaces;
use codex_monitor_daemon::workspace::{WorkspaceInfo, WorkspaceKind, WorkspaceSettings};

fn workspace(name: &str, sort_order: Option<u32>) -> WorkspaceInfo {
    WorkspaceInfo {
        id: name.to_string(),
        name: name.to_string(),
        path: "/tmp".to_string(),
        connected: false,
        codex_bin: None,
        kind: WorkspaceKind::Main,
        parent_id: None,
        worktree: None,
        settings: WorkspaceSettings { sidebar_collapsed: false, sort_order },
    }
}

#[test]
fn sort_workspaces_orders_by_sort_then_name() {
    let mut items = vec![
        workspace("beta", None),
        workspace("alpha", None),
        workspace("delta", Some(2)),
        workspace("gamma", Some(1)),
    ];

    sort_workspaces(&mut items);

    let names: Vec<_> = items.into_iter().map(|item| item.name).collect();
    assert_eq!(names, vec!["gamma", "delta", "alpha", "beta"]);
}

#[test]
fn sort_workspaces_ties_break_by_name() {
    let mut items = vec![
        workspace("c", Some(7)),
        workspace("a", Some(7)),
        workspace("b", Some(7)),
    ];
    sort_workspaces(&mut items);
    let names: Vec<_> = items.into_iter().map(|item| item.name).collect();
    assert_eq!(names, vec!["a", "b", "c"]);
}

#[test]
fn sort_workspaces_keeps_empty_and_singleton() {
    let mut empty: Vec<WorkspaceInfo> = Vec::new();
    sort_workspaces(&mut empty);
    assert_eq!(empty.len(), 0);

    let mut one = vec![workspace("only", None)];
    sort_workspaces(&mut one);
    assert_eq!(one.len(), 1);
    assert_eq!(one[0].name, "only");
}
