use codex_monitor_daemon::client::{auth_step, build_error_response, build_result_response,
    AuthOutcome, DaemonEvent};
use codex_monitor_daemon::json::JsonValue;
use codex_monitor_daemon::rpc::{parse_rpc_request, RpcCall};
use codex_monitor_daemon::wire::{clean_command, make_request_frame, ok_result, turn_start_params};

fn obj(fields: Vec<(&str, JsonValue)>) -> JsonValue {
    JsonValue::Object(fields.into_iter().map(|(k, v)| (k.to_string(), v)).collect())
}

fn text(s: &str) -> JsonValue {
    JsonValue::Text(s.to_string())
}

fn get<'a>(v: &'a JsonValue, key: &str) -> &'a JsonValue {
    v.get(key).expect("member missing")
}

fn as_str(v: &JsonValue) -> String {
    v.as_text().expect("not a string")
}

#[test]
fn ping_dispatches_without_params() {
    let call = parse_rpc_request("ping", JsonValue::Null).unwrap();
    assert!(matches!(call, RpcCall::Ping));
    let ok = ok_result();
    assert!(matches!(get(&ok, "ok"), JsonValue::Bool(true)));
}

#[test]
fn unknown_method_is_reported() {
    let err = parse_rpc_request("frobnicate", JsonValue::Null).unwrap_err();
    assert_eq!(err, "unknown method: frobnicate");
}

#[test]
fn missing_and_invalid_parameters() {
    let err = parse_rpc_request("add_workspace", JsonValue::Null).unwrap_err();
    assert_eq!(err, "missing `path`");
    let err2 = parse_rpc_request("add_workspace", obj(vec![("path", JsonValue::Uint(3))]))
        .unwrap_err();
    assert_eq!(err2, "missing or invalid `path`");
    let err3 = parse_rpc_request("add_worktree", obj(vec![("parentId", text("p"))])).unwrap_err();
    assert_eq!(err3, "missing or invalid `branch`");
}

#[test]
fn add_worktree_arguments_are_extracted() {
    let params = obj(vec![("parentId", text("p-1")), ("branch", text("feat"))]);
    match parse_rpc_request("add_worktree", params).unwrap() {
        RpcCall::AddWorktree { parent_id, branch } => {
            assert_eq!(parent_id, "p-1");
            assert_eq!(branch, "feat");
        },
        _ => panic!("wrong call"),
    }
}

#[test]
fn respond_to_server_request_errors() {
    let err = parse_rpc_request(
        "respond_to_server_request",
        obj(vec![("workspaceId", text("w"))]),
    )
    .unwrap_err();
    assert_eq!(err, "missing requestId");
    let err2 = parse_rpc_request(
        "respond_to_server_request",
        obj(vec![("workspaceId", text("w")), ("requestId", JsonValue::Uint(9))]),
    )
    .unwrap_err();
    assert_eq!(err2, "missing `result`");
}

#[test]
fn remember_approval_rule_command_cleanup() {
    let err = parse_rpc_request(
        "remember_approval_rule",
        obj(vec![("workspaceId", text("w"))]),
    )
    .unwrap_err();
    assert_eq!(err, "missing `command`");

    let cleaned = clean_command(&vec![" git ".to_string(), "".to_string(), "push".to_string()])
        .unwrap();
    assert_eq!(cleaned, vec!["git".to_string(), "push".to_string()]);
    let empty = clean_command(&vec!["  ".to_string()]).unwrap_err();
    assert_eq!(empty, "empty command");
}

#[test]
fn send_user_message_assembly() {
    // text "hi ", three images, access mode absent.
    let images = Some(vec![
        "data:image/png;base64,xyz".to_string(),
        "/abs/x.png".to_string(),
        "https://e/y.jpg".to_string(),
    ]);
    let params = turn_start_params(
        "/repo/path",
        "t-1",
        "hi ",
        None,
        None,
        None,
        images,
        None,
    )
    .unwrap();

    assert_eq!(as_str(get(&params, "threadId")), "t-1");
    assert_eq!(as_str(get(&params, "cwd")), "/repo/path");
    assert_eq!(as_str(get(&params, "approvalPolicy")), "on-request");

    let input = match get(&params, "input") {
        JsonValue::Array(items) => items,
        _ => panic!("input is not an array"),
    };
    assert_eq!(input.len(), 4);
    assert_eq!(as_str(get(&input[0], "type")), "text");
    assert_eq!(as_str(get(&input[0], "text")), "hi");
    assert_eq!(as_str(get(&input[1], "type")), "image");
    assert_eq!(as_str(get(&input[1], "url")), "data:image/png;base64,xyz");
    assert_eq!(as_str(get(&input[2], "type")), "localImage");
    assert_eq!(as_str(get(&input[2], "path")), "/abs/x.png");
    assert_eq!(as_str(get(&input[3], "type")), "image");
    assert_eq!(as_str(get(&input[3], "url")), "https://e/y.jpg");

    let sandbox = get(&params, "sandboxPolicy");
    assert_eq!(as_str(get(sandbox, "type")), "workspaceWrite");
    match get(sandbox, "writableRoots") {
        JsonValue::Array(roots) => {
            assert_eq!(roots.len(), 1);
            assert_eq!(roots[0].as_text().unwrap(), "/repo/path");
        },
        _ => panic!("writableRoots is not an array"),
    }
    assert!(matches!(get(sandbox, "networkAccess"), JsonValue::Bool(true)));
    assert!(matches!(get(&params, "model"), JsonValue::Null));
    assert!(matches!(get(&params, "collaborationMode"), JsonValue::Null));
}

#[test]
fn send_user_message_full_access_and_empty() {
    let p = turn_start_params("/r", "t", "go", None, None, Some("full-access".to_string()), None, None)
        .unwrap();
    assert_eq!(as_str(get(&p, "approvalPolicy")), "never");
    assert_eq!(as_str(get(get(&p, "sandboxPolicy"), "type")), "dangerFullAccess");

    let err = turn_start_params("/r", "t", "   ", None, None, None, Some(vec![" ".to_string()]), None)
        .unwrap_err();
    assert_eq!(err, "empty user message");
}

#[test]
fn list_threads_params_carry_nulls() {
    let call = parse_rpc_request(
        "list_threads",
        obj(vec![("workspaceId", text("w")), ("limit", JsonValue::Uint(5))]),
    )
    .unwrap();
    match call {
        RpcCall::ListThreads { workspace_id, cursor, limit } => {
            assert_eq!(workspace_id, "w");
            assert!(cursor.is_none());
            assert_eq!(limit, Some(5));
        },
        _ => panic!("wrong call"),
    }
    let built = codex_monitor_daemon::wire::list_threads_params(None, Some(5));
    assert!(matches!(get(&built, "cursor"), JsonValue::Null));
    assert!(matches!(get(&built, "limit"), JsonValue::Uint(5)));
}

#[test]
fn image_arrays_drop_non_string_elements() {
    let params = obj(vec![
        ("workspaceId", text("w")),
        ("threadId", text("t")),
        ("text", text("hello")),
        ("images", JsonValue::Array(vec![text("/a.png"), JsonValue::Uint(4), text("/b.png")])),
    ]);
    match parse_rpc_request("send_user_message", params).unwrap() {
        RpcCall::SendUserMessage { images, .. } => {
            assert_eq!(images.unwrap(), vec!["/a.png".to_string(), "/b.png".to_string()]);
        },
        _ => panic!("wrong call"),
    }
}

#[test]
fn auth_required_scenario() {
    // ping before auth is unauthorized.
    let step = auth_step("T", "ping", &JsonValue::Null, Some(1));
    assert!(matches!(step, AuthOutcome::Unauthorized { id: 1 }));
    let reply = build_error_response(1, "unauthorized");
    assert_eq!(as_str(get(get(&reply, "error"), "message")), "unauthorized");

    // a wrong token is refused.
    let bad = auth_step("T", "auth", &text("nope"), Some(2));
    assert!(matches!(bad, AuthOutcome::BadToken { id: Some(2) }));

    // the right token authenticates, as params string or token member.
    let good = auth_step("T", "auth", &text("T"), Some(2));
    assert!(matches!(good, AuthOutcome::Authenticated { id: Some(2) }));
    let wrapped = obj(vec![("token", text("T"))]);
    let good2 = auth_step("T", "auth", &wrapped, None);
    assert!(matches!(good2, AuthOutcome::Authenticated { id: None }));

    let ok_reply = build_result_response(2, ok_result());
    assert!(matches!(get(get(&ok_reply, "result"), "ok"), JsonValue::Bool(true)));
}

#[test]
fn frames_and_notifications() {
    let frame = make_request_frame(7, "thread/start", ok_result());
    assert!(matches!(get(&frame, "id"), JsonValue::Uint(7)));
    assert_eq!(as_str(get(&frame, "method")), "thread/start");

    let note = codex_monitor_daemon::client::build_event_notification(DaemonEvent::AppServer(
        text("payload"),
    ));
    assert_eq!(as_str(get(&note, "method")), "app-server-event");
    assert_eq!(as_str(get(&note, "params")), "payload");

    let term = codex_monitor_daemon::client::build_event_notification(
        DaemonEvent::TerminalOutput(text("tty")),
    );
    assert_eq!(as_str(get(&term, "method")), "terminal-output");
}
