//! The RPC dispatcher: one call per wire method, with its arguments
//! extracted and typed, and the exact error for every malformed request.

use vstd::prelude::*;

use crate::json::{spec_get, JsonValue};
use crate::params::{parse_optional_string, parse_optional_u32, parse_string, parse_string_array,
    spec_get_text, spec_get_u32, string_arg_err, texts_of};
use crate::session::spec_get_u64;
use crate::settings::{app_settings_ok, parse_app_settings, parse_workspace_settings, spec_flag,
    spec_order_field, spec_text_field, workspace_settings_ok, AppSettings};
use crate::text::{str_eq, str_to_string, strs_view};
use crate::workspace::WorkspaceSettings;

verus! {

/// One decoded request: the method with its typed arguments.
#[derive(Debug)]
pub enum RpcCall {
    Ping,
    ListWorkspaces,
    IsWorkspacePathDir { path: String },
    AddWorkspace { path: String, codex_bin: Option<String> },
    AddWorktree { parent_id: String, branch: String },
    ConnectWorkspace { workspace_id: String },
    RemoveWorkspace { workspace_id: String },
    RemoveWorktree { workspace_id: String },
    RenameWorktree { workspace_id: String, branch: String },
    RenameWorktreeUpstream { workspace_id: String, old_branch: String, new_branch: String },
    UpdateWorkspaceSettings { workspace_id: String, settings: WorkspaceSettings },
    UpdateWorkspaceCodexBin { workspace_id: String, codex_bin: Option<String> },
    ListWorkspaceFiles { workspace_id: String },
    ReadWorkspaceFile { workspace_id: String, path: String },
    GetAppSettings,
    UpdateAppSettings { settings: AppSettings },
    GetCodexConfigPath,
    StartThread { workspace_id: String },
    ResumeThread { workspace_id: String, thread_id: String },
    ListThreads { workspace_id: String, cursor: Option<String>, limit: Option<u32> },
    ArchiveThread { workspace_id: String, thread_id: String },
    SendUserMessage {
        workspace_id: String,
        thread_id: String,
        text: String,
        model: Option<String>,
        effort: Option<String>,
        access_mode: Option<String>,
        images: Option<Vec<String>>,
        collaboration_mode: Option<JsonValue>,
    },
    TurnInterrupt { workspace_id: String, thread_id: String, turn_id: String },
    StartReview {
        workspace_id: String,
        thread_id: String,
        target: JsonValue,
        delivery: Option<String>,
    },
    ModelList { workspace_id: String },
    CollaborationModeList { workspace_id: String },
    AccountRateLimits { workspace_id: String },
    SkillsList { workspace_id: String },
    RespondToServerRequest { workspace_id: String, request_id: u64, result: JsonValue },
    RememberApprovalRule { workspace_id: String, command: Vec<String> },
}

/// The correspondence of an optional text argument.
pub open spec fn opt_text_matches(v: JsonValue, key: Seq<char>, r: Option<String>) -> bool {
    match r {
        Some(s) => spec_get_text(v, key) == Some(s@),
        None => spec_get_text(v, key) is None,
    }
}

/// The correspondence of a required text argument, already known present.
pub open spec fn text_matches(v: JsonValue, key: Seq<char>, s: String) -> bool {
    spec_get_text(v, key) == Some(s@)
}

/// A well-formed required string argument exists under `key`.
pub open spec fn has_text(v: JsonValue, key: Seq<char>) -> bool {
    spec_get_text(v, key) is Some
}

/// Decodes one wire request into a typed call. Every error names the
/// first argument that failed, in the order the daemon reads them, and an
/// unknown method is reported as such.
pub fn parse_rpc_request(method: &str, params: JsonValue) -> (r: Result<RpcCall, String>)
    ensures
        method@ == "ping"@ ==> r == Ok::<RpcCall, String>(RpcCall::Ping),
        method@ == "list_workspaces"@ ==> r == Ok::<RpcCall, String>(RpcCall::ListWorkspaces),
        method@ == "get_app_settings"@ ==> r == Ok::<RpcCall, String>(RpcCall::GetAppSettings),
        method@ == "get_codex_config_path"@ ==> r == Ok::<RpcCall, String>(
            RpcCall::GetCodexConfigPath,
        ),
        method@ == "is_workspace_path_dir"@ ==> match r {
            Ok(c) => c matches RpcCall::IsWorkspacePathDir { path } && text_matches(
                params,
                "path"@,
                path,
            ),
            Err(e) => !has_text(params, "path"@) && e@ == string_arg_err(params, "path"@),
        },
        method@ == "add_workspace"@ ==> match r {
            Ok(c) => c matches RpcCall::AddWorkspace { path, codex_bin } && text_matches(
                params,
                "path"@,
                path,
            ) && opt_text_matches(params, "codex_bin"@, codex_bin),
            Err(e) => !has_text(params, "path"@) && e@ == string_arg_err(params, "path"@),
        },
        method@ == "add_worktree"@ ==> match r {
            Ok(c) => c matches RpcCall::AddWorktree { parent_id, branch } && text_matches(
                params,
                "parentId"@,
                parent_id,
            ) && text_matches(params, "branch"@, branch),
            Err(e) => if !has_text(params, "parentId"@) {
                e@ == string_arg_err(params, "parentId"@)
            } else {
                !has_text(params, "branch"@) && e@ == string_arg_err(params, "branch"@)
            },
        },
        method@ == "connect_workspace"@ ==> match r {
            Ok(c) => c matches RpcCall::ConnectWorkspace { workspace_id } && text_matches(
                params,
                "id"@,
                workspace_id,
            ),
            Err(e) => !has_text(params, "id"@) && e@ == string_arg_err(params, "id"@),
        },
        method@ == "remove_workspace"@ ==> match r {
            Ok(c) => c matches RpcCall::RemoveWorkspace { workspace_id } && text_matches(
                params,
                "id"@,
                workspace_id,
            ),
            Err(e) => !has_text(params, "id"@) && e@ == string_arg_err(params, "id"@),
        },
        method@ == "remove_worktree"@ ==> match r {
            Ok(c) => c matches RpcCall::RemoveWorktree { workspace_id } && text_matches(
                params,
                "id"@,
                workspace_id,
            ),
            Err(e) => !has_text(params, "id"@) && e@ == string_arg_err(params, "id"@),
        },
        method@ == "rename_worktree"@ ==> match r {
            Ok(c) => c matches RpcCall::RenameWorktree { workspace_id, branch } && text_matches(
                params,
                "id"@,
                workspace_id,
            ) && text_matches(params, "branch"@, branch),
            Err(e) => if !has_text(params, "id"@) {
                e@ == string_arg_err(params, "id"@)
            } else {
                !has_text(params, "branch"@) && e@ == string_arg_err(params, "branch"@)
            },
        },
        method@ == "rename_worktree_upstream"@ ==> match r {
            Ok(c) => c matches RpcCall::RenameWorktreeUpstream {
                workspace_id,
                old_branch,
                new_branch,
            } && text_matches(params, "id"@, workspace_id) && text_matches(
                params,
                "oldBranch"@,
                old_branch,
            ) && text_matches(params, "newBranch"@, new_branch),
            Err(e) => if !has_text(params, "id"@) {
                e@ == string_arg_err(params, "id"@)
            } else if !has_text(params, "oldBranch"@) {
                e@ == string_arg_err(params, "oldBranch"@)
            } else {
                !has_text(params, "newBranch"@) && e@ == string_arg_err(params, "newBranch"@)
            },
        },
        method@ == "update_workspace_settings"@ ==> match r {
            Ok(c) => c matches RpcCall::UpdateWorkspaceSettings { workspace_id, settings }
                && text_matches(params, "id"@, workspace_id) && {
                let sv = settings_field_or_null(params);
                &&& workspace_settings_ok(sv)
                &&& settings.sidebar_collapsed == spec_flag(sv, "sidebar_collapsed"@)
                &&& settings.sort_order == spec_order_field(sv, "sort_order"@)
            },
            Err(e) => if !has_text(params, "id"@) {
                e@ == string_arg_err(params, "id"@)
            } else {
                !workspace_settings_ok(settings_field_or_null(params)) && e@
                    == "invalid `settings`"@
            },
        },
        method@ == "update_workspace_codex_bin"@ ==> match r {
            Ok(c) => c matches RpcCall::UpdateWorkspaceCodexBin { workspace_id, codex_bin }
                && text_matches(params, "id"@, workspace_id) && opt_text_matches(
                params,
                "codex_bin"@,
                codex_bin,
            ),
            Err(e) => !has_text(params, "id"@) && e@ == string_arg_err(params, "id"@),
        },
        method@ == "list_workspace_files"@ ==> match r {
            Ok(c) => c matches RpcCall::ListWorkspaceFiles { workspace_id } && text_matches(
                params,
                "workspaceId"@,
                workspace_id,
            ),
            Err(e) => !has_text(params, "workspaceId"@) && e@ == string_arg_err(
                params,
                "workspaceId"@,
            ),
        },
        method@ == "read_workspace_file"@ ==> match r {
            Ok(c) => c matches RpcCall::ReadWorkspaceFile { workspace_id, path } && text_matches(
                params,
                "workspaceId"@,
                workspace_id,
            ) && text_matches(params, "path"@, path),
            Err(e) => if !has_text(params, "workspaceId"@) {
                e@ == string_arg_err(params, "workspaceId"@)
            } else {
                !has_text(params, "path"@) && e@ == string_arg_err(params, "path"@)
            },
        },
        method@ == "update_app_settings"@ ==> match r {
            Ok(c) => c matches RpcCall::UpdateAppSettings { settings } && {
                let sv = settings_field_or_null(params);
                &&& app_settings_ok(sv)
                &&& opt_string_view_matches(settings.codex_bin, spec_text_field(sv, "codex_bin"@))
                &&& settings.experimental_collab_enabled == spec_flag(
                    sv,
                    "experimental_collab_enabled"@,
                )
                &&& settings.experimental_collaboration_modes_enabled == spec_flag(
                    sv,
                    "experimental_collaboration_modes_enabled"@,
                )
                &&& settings.experimental_steer_enabled == spec_flag(
                    sv,
                    "experimental_steer_enabled"@,
                )
                &&& settings.experimental_unified_exec_enabled == spec_flag(
                    sv,
                    "experimental_unified_exec_enabled"@,
                )
            },
            Err(e) => !app_settings_ok(settings_field_or_null(params)) && e@
                == "invalid `settings`"@,
        },
        method@ == "start_thread"@ ==> match r {
            Ok(c) => c matches RpcCall::StartThread { workspace_id } && text_matches(
                params,
                "workspaceId"@,
                workspace_id,
            ),
            Err(e) => !has_text(params, "workspaceId"@) && e@ == string_arg_err(
                params,
                "workspaceId"@,
            ),
        },
        method@ == "resume_thread"@ ==> match r {
            Ok(c) => c matches RpcCall::ResumeThread { workspace_id, thread_id } && text_matches(
                params,
                "workspaceId"@,
                workspace_id,
            ) && text_matches(params, "threadId"@, thread_id),
            Err(e) => if !has_text(params, "workspaceId"@) {
                e@ == string_arg_err(params, "workspaceId"@)
            } else {
                !has_text(params, "threadId"@) && e@ == string_arg_err(params, "threadId"@)
            },
        },
        method@ == "list_threads"@ ==> match r {
            Ok(c) => c matches RpcCall::ListThreads { workspace_id, cursor, limit }
                && text_matches(params, "workspaceId"@, workspace_id) && opt_text_matches(
                params,
                "cursor"@,
                cursor,
            ) && limit == spec_get_u32(params, "limit"@),
            Err(e) => !has_text(params, "workspaceId"@) && e@ == string_arg_err(
                params,
                "workspaceId"@,
            ),
        },
        method@ == "archive_thread"@ ==> match r {
            Ok(c) => c matches RpcCall::ArchiveThread { workspace_id, thread_id } && text_matches(
                params,
                "workspaceId"@,
                workspace_id,
            ) && text_matches(params, "threadId"@, thread_id),
            Err(e) => if !has_text(params, "workspaceId"@) {
                e@ == string_arg_err(params, "workspaceId"@)
            } else {
                !has_text(params, "threadId"@) && e@ == string_arg_err(params, "threadId"@)
            },
        },
        method@ == "send_user_message"@ ==> match r {
            Ok(c) => c matches RpcCall::SendUserMessage {
                workspace_id,
                thread_id,
                text,
                model,
                effort,
                access_mode,
                images,
                collaboration_mode,
            } && text_matches(params, "workspaceId"@, workspace_id) && text_matches(
                params,
                "threadId"@,
                thread_id,
            ) && text_matches(params, "text"@, text) && opt_text_matches(params, "model"@, model)
                && opt_text_matches(params, "effort"@, effort) && opt_text_matches(
                params,
                "accessMode"@,
                access_mode,
            ) && (match images {
                Some(v) => spec_get(params, "images"@) matches Some(a) && a is Array && strs_view(
                    v@,
                ) == texts_of(a->Array_0@),
                None => !(spec_get(params, "images"@) matches Some(a) && a is Array),
            }) && collaboration_mode == spec_get(params, "collaborationMode"@),
            Err(e) => if !has_text(params, "workspaceId"@) {
                e@ == string_arg_err(params, "workspaceId"@)
            } else if !has_text(params, "threadId"@) {
                e@ == string_arg_err(params, "threadId"@)
            } else {
                !has_text(params, "text"@) && e@ == string_arg_err(params, "text"@)
            },
        },
        method@ == "turn_interrupt"@ ==> match r {
            Ok(c) => c matches RpcCall::TurnInterrupt { workspace_id, thread_id, turn_id }
                && text_matches(params, "workspaceId"@, workspace_id) && text_matches(
                params,
                "threadId"@,
                thread_id,
            ) && text_matches(params, "turnId"@, turn_id),
            Err(e) => if !has_text(params, "workspaceId"@) {
                e@ == string_arg_err(params, "workspaceId"@)
            } else if !has_text(params, "threadId"@) {
                e@ == string_arg_err(params, "threadId"@)
            } else {
                !has_text(params, "turnId"@) && e@ == string_arg_err(params, "turnId"@)
            },
        },
        method@ == "start_review"@ ==> match r {
            Ok(c) => c matches RpcCall::StartReview { workspace_id, thread_id, target, delivery }
                && text_matches(params, "workspaceId"@, workspace_id) && text_matches(
                params,
                "threadId"@,
                thread_id,
            ) && spec_get(params, "target"@) == Some(target) && opt_text_matches(
                params,
                "delivery"@,
                delivery,
            ),
            Err(e) => if !has_text(params, "workspaceId"@) {
                e@ == string_arg_err(params, "workspaceId"@)
            } else if !has_text(params, "threadId"@) {
                e@ == string_arg_err(params, "threadId"@)
            } else {
                spec_get(params, "target"@) is None && e@ == "missing `target`"@
            },
        },
        method@ == "model_list"@ ==> match r {
            Ok(c) => c matches RpcCall::ModelList { workspace_id } && text_matches(
                params,
                "workspaceId"@,
                workspace_id,
            ),
            Err(e) => !has_text(params, "workspaceId"@) && e@ == string_arg_err(
                params,
                "workspaceId"@,
            ),
        },
        method@ == "collaboration_mode_list"@ ==> match r {
            Ok(c) => c matches RpcCall::CollaborationModeList { workspace_id } && text_matches(
                params,
                "workspaceId"@,
                workspace_id,
            ),
            Err(e) => !has_text(params, "workspaceId"@) && e@ == string_arg_err(
                params,
                "workspaceId"@,
            ),
        },
        method@ == "account_rate_limits"@ ==> match r {
            Ok(c) => c matches RpcCall::AccountRateLimits { workspace_id } && text_matches(
                params,
                "workspaceId"@,
                workspace_id,
            ),
            Err(e) => !has_text(params, "workspaceId"@) && e@ == string_arg_err(
                params,
                "workspaceId"@,
            ),
        },
        method@ == "skills_list"@ ==> match r {
            Ok(c) => c matches RpcCall::SkillsList { workspace_id } && text_matches(
                params,
                "workspaceId"@,
                workspace_id,
            ),
            Err(e) => !has_text(params, "workspaceId"@) && e@ == string_arg_err(
                params,
                "workspaceId"@,
            ),
        },
        method@ == "respond_to_server_request"@ ==> match r {
            Ok(c) => c matches RpcCall::RespondToServerRequest {
                workspace_id,
                request_id,
                result,
            } && text_matches(params, "workspaceId"@, workspace_id) && spec_get_u64(
                params,
                "requestId"@,
            ) == Some(request_id) && spec_get(params, "result"@) == Some(result),
            Err(e) => if !has_text(params, "workspaceId"@) {
                e@ == string_arg_err(params, "workspaceId"@)
            } else if spec_get_u64(params, "requestId"@) is None {
                e@ == "missing requestId"@
            } else {
                spec_get(params, "result"@) is None && e@ == "missing `result`"@
            },
        },
        method@ == "remember_approval_rule"@ ==> match r {
            Ok(c) => c matches RpcCall::RememberApprovalRule { workspace_id, command }
                && text_matches(params, "workspaceId"@, workspace_id) && (spec_get(
                params,
                "command"@,
            ) matches Some(a) && a is Array && strs_view(command@) == texts_of(a->Array_0@)),
            Err(e) => if !has_text(params, "workspaceId"@) {
                e@ == string_arg_err(params, "workspaceId"@)
            } else {
                !(spec_get(params, "command"@) matches Some(a) && a is Array) && e@
                    == crate::params::missing_msg("command"@)
            },
        },
        !known_method(method@) ==> (r matches Err(e) && e@ == "unknown method: "@ + method@),
{
    proof {
        reveal_strlit("ping");
        reveal_strlit("list_workspaces");
        reveal_strlit("is_workspace_path_dir");
        reveal_strlit("add_workspace");
        reveal_strlit("add_worktree");
        reveal_strlit("connect_workspace");
        reveal_strlit("remove_workspace");
        reveal_strlit("remove_worktree");
        reveal_strlit("rename_worktree");
        reveal_strlit("rename_worktree_upstream");
        reveal_strlit("update_workspace_settings");
        reveal_strlit("update_workspace_codex_bin");
        reveal_strlit("list_workspace_files");
        reveal_strlit("read_workspace_file");
        reveal_strlit("get_app_settings");
        reveal_strlit("update_app_settings");
        reveal_strlit("get_codex_config_path");
        reveal_strlit("start_thread");
        reveal_strlit("resume_thread");
        reveal_strlit("list_threads");
        reveal_strlit("archive_thread");
        reveal_strlit("send_user_message");
        reveal_strlit("turn_interrupt");
        reveal_strlit("start_review");
        reveal_strlit("model_list");
        reveal_strlit("collaboration_mode_list");
        reveal_strlit("account_rate_limits");
        reveal_strlit("skills_list");
        reveal_strlit("respond_to_server_request");
        reveal_strlit("remember_approval_rule");
        assert("ping"@.len() == 4);
        assert("list_workspaces"@.len() == 15);
        assert("is_workspace_path_dir"@.len() == 21);
        assert("add_workspace"@.len() == 13);
        assert("add_worktree"@.len() == 12);
        assert("connect_workspace"@.len() == 17);
        assert("remove_workspace"@.len() == 16);
        assert("remove_worktree"@.len() == 15);
        assert("rename_worktree"@.len() == 15);
        assert("rename_worktree_upstream"@.len() == 24);
        assert("update_workspace_settings"@.len() == 25);
        assert("update_workspace_codex_bin"@.len() == 26);
        assert("list_workspace_files"@.len() == 20);
        assert("read_workspace_file"@.len() == 19);
        assert("get_app_settings"@.len() == 16);
        assert("update_app_settings"@.len() == 19);
        assert("get_codex_config_path"@.len() == 21);
        assert("start_thread"@.len() == 12);
        assert("resume_thread"@.len() == 13);
        assert("list_threads"@.len() == 12);
        assert("archive_thread"@.len() == 14);
        assert("send_user_message"@.len() == 17);
        assert("turn_interrupt"@.len() == 14);
        assert("start_review"@.len() == 12);
        assert("model_list"@.len() == 10);
        assert("collaboration_mode_list"@.len() == 23);
        assert("account_rate_limits"@.len() == 19);
        assert("skills_list"@.len() == 11);
        assert("respond_to_server_request"@.len() == 25);
        assert("remember_approval_rule"@.len() == 22);
        assert("ping"@[0] == 'p');
        assert("list_workspaces"@[0] == 'l');
        assert("is_workspace_path_dir"@[0] == 'i');
        assert("add_workspace"@[0] == 'a');
        assert("add_worktree"@[0] == 'a');
        assert("connect_workspace"@[0] == 'c');
        assert("remove_workspace"@[0] == 'r');
        assert("remove_worktree"@[0] == 'r');
        assert("rename_worktree"@[0] == 'r');
        assert("rename_worktree_upstream"@[0] == 'r');
        assert("update_workspace_settings"@[0] == 'u');
        assert("update_workspace_codex_bin"@[0] == 'u');
        assert("list_workspace_files"@[0] == 'l');
        assert("read_workspace_file"@[0] == 'r');
        assert("get_app_settings"@[0] == 'g');
        assert("update_app_settings"@[0] == 'u');
        assert("get_codex_config_path"@[0] == 'g');
        assert("start_thread"@[0] == 's');
        assert("resume_thread"@[0] == 'r');
        assert("list_threads"@[0] == 'l');
        assert("archive_thread"@[0] == 'a');
        assert("send_user_message"@[0] == 's');
        assert("turn_interrupt"@[0] == 't');
        assert("start_review"@[0] == 's');
        assert("model_list"@[0] == 'm');
        assert("collaboration_mode_list"@[0] == 'c');
        assert("account_rate_limits"@[0] == 'a');
        assert("skills_list"@[0] == 's');
        assert("respond_to_server_request"@[0] == 'r');
        assert("remember_approval_rule"@[0] == 'r');
        assert("remove_worktree"@[2] == 'm' && "rename_worktree"@[2] == 'n');
        assert("start_thread"@[6] == 't' && "start_review"@[6] == 'r');
    }
    if str_eq(method, "ping") {
        Ok(RpcCall::Ping)
    } else if str_eq(method, "list_workspaces") {
        Ok(RpcCall::ListWorkspaces)
    } else if str_eq(method, "is_workspace_path_dir") {
        let path = parse_string(&params, "path")?;
        Ok(RpcCall::IsWorkspacePathDir { path })
    } else if str_eq(method, "add_workspace") {
        let path = parse_string(&params, "path")?;
        let codex_bin = parse_optional_string(&params, "codex_bin");
        Ok(RpcCall::AddWorkspace { path, codex_bin })
    } else if str_eq(method, "add_worktree") {
        let parent_id = parse_string(&params, "parentId")?;
        let branch = parse_string(&params, "branch")?;
        Ok(RpcCall::AddWorktree { parent_id, branch })
    } else if str_eq(method, "connect_workspace") {
        let workspace_id = parse_string(&params, "id")?;
        Ok(RpcCall::ConnectWorkspace { workspace_id })
    } else if str_eq(method, "remove_workspace") {
        let workspace_id = parse_string(&params, "id")?;
        Ok(RpcCall::RemoveWorkspace { workspace_id })
    } else if str_eq(method, "remove_worktree") {
        let workspace_id = parse_string(&params, "id")?;
        Ok(RpcCall::RemoveWorktree { workspace_id })
    } else if str_eq(method, "rename_worktree") {
        let workspace_id = parse_string(&params, "id")?;
        let branch = parse_string(&params, "branch")?;
        Ok(RpcCall::RenameWorktree { workspace_id, branch })
    } else if str_eq(method, "rename_worktree_upstream") {
        let workspace_id = parse_string(&params, "id")?;
        let old_branch = parse_string(&params, "oldBranch")?;
        let new_branch = parse_string(&params, "newBranch")?;
        Ok(RpcCall::RenameWorktreeUpstream { workspace_id, old_branch, new_branch })
    } else if str_eq(method, "update_workspace_settings") {
        let workspace_id = parse_string(&params, "id")?;
        let settings = match params.get("settings") {
            Some(v) => parse_workspace_settings(v)?,
            None => {
                return Err(str_to_string("invalid `settings`"));
            },
        };
        Ok(RpcCall::UpdateWorkspaceSettings { workspace_id, settings })
    } else if str_eq(method, "update_workspace_codex_bin") {
        let workspace_id = parse_string(&params, "id")?;
        let codex_bin = parse_optional_string(&params, "codex_bin");
        Ok(RpcCall::UpdateWorkspaceCodexBin { workspace_id, codex_bin })
    } else if str_eq(method, "list_workspace_files") {
        let workspace_id = parse_string(&params, "workspaceId")?;
        Ok(RpcCall::ListWorkspaceFiles { workspace_id })
    } else if str_eq(method, "read_workspace_file") {
        let workspace_id = parse_string(&params, "workspaceId")?;
        let path = parse_string(&params, "path")?;
        Ok(RpcCall::ReadWorkspaceFile { workspace_id, path })
    } else if str_eq(method, "get_app_settings") {
        Ok(RpcCall::GetAppSettings)
    } else if str_eq(method, "update_app_settings") {
        let settings = match params.get("settings") {
            Some(v) => parse_app_settings(v)?,
            None => {
                return Err(str_to_string("invalid `settings`"));
            },
        };
        Ok(RpcCall::UpdateAppSettings { settings })
    } else if str_eq(method, "get_codex_config_path") {
        Ok(RpcCall::GetCodexConfigPath)
    } else if str_eq(method, "start_thread") {
        let workspace_id = parse_string(&params, "workspaceId")?;
        Ok(RpcCall::StartThread { workspace_id })
    } else if str_eq(method, "resume_thread") {
        let workspace_id = parse_string(&params, "workspaceId")?;
        let thread_id = parse_string(&params, "threadId")?;
        Ok(RpcCall::ResumeThread { workspace_id, thread_id })
    } else if str_eq(method, "list_threads") {
        let workspace_id = parse_string(&params, "workspaceId")?;
        let cursor = parse_optional_string(&params, "cursor");
        let limit = parse_optional_u32(&params, "limit");
        Ok(RpcCall::ListThreads { workspace_id, cursor, limit })
    } else if str_eq(method, "archive_thread") {
        let workspace_id = parse_string(&params, "workspaceId")?;
        let thread_id = parse_string(&params, "threadId")?;
        Ok(RpcCall::ArchiveThread { workspace_id, thread_id })
    } else if str_eq(method, "send_user_message") {
        let workspace_id = parse_string(&params, "workspaceId")?;
        let thread_id = parse_string(&params, "threadId")?;
        let text = parse_string(&params, "text")?;
        let model = parse_optional_string(&params, "model");
        let effort = parse_optional_string(&params, "effort");
        let access_mode = parse_optional_string(&params, "accessMode");
        let images = crate::params::parse_optional_string_array(&params, "images");
        let collaboration_mode = match params {
            JsonValue::Object(mut fields) => crate::json::take_field(&mut fields, "collaborationMode"),
            _ => None,
        };
        Ok(
            RpcCall::SendUserMessage {
                workspace_id,
                thread_id,
                text,
                model,
                effort,
                access_mode,
                images,
                collaboration_mode,
            },
        )
    } else if str_eq(method, "turn_interrupt") {
        let workspace_id = parse_string(&params, "workspaceId")?;
        let thread_id = parse_string(&params, "threadId")?;
        let turn_id = parse_string(&params, "turnId")?;
        Ok(RpcCall::TurnInterrupt { workspace_id, thread_id, turn_id })
    } else if str_eq(method, "start_review") {
        let workspace_id = parse_string(&params, "workspaceId")?;
        let thread_id = parse_string(&params, "threadId")?;
        let delivery = parse_optional_string(&params, "delivery");
        let target = match params {
            JsonValue::Object(mut fields) => crate::json::take_field(&mut fields, "target"),
            _ => None,
        };
        let target = match target {
            Some(t) => t,
            None => {
                return Err(str_to_string("missing `target`"));
            },
        };
        Ok(RpcCall::StartReview { workspace_id, thread_id, target, delivery })
    } else if str_eq(method, "model_list") {
        let workspace_id = parse_string(&params, "workspaceId")?;
        Ok(RpcCall::ModelList { workspace_id })
    } else if str_eq(method, "collaboration_mode_list") {
        let workspace_id = parse_string(&params, "workspaceId")?;
        Ok(RpcCall::CollaborationModeList { workspace_id })
    } else if str_eq(method, "account_rate_limits") {
        let workspace_id = parse_string(&params, "workspaceId")?;
        Ok(RpcCall::AccountRateLimits { workspace_id })
    } else if str_eq(method, "skills_list") {
        let workspace_id = parse_string(&params, "workspaceId")?;
        Ok(RpcCall::SkillsList { workspace_id })
    } else if str_eq(method, "respond_to_server_request") {
        let workspace_id = parse_string(&params, "workspaceId")?;
        let request_id = match params.get("requestId") {
            Some(x) => match x.as_u64() {
                Some(n) => n,
                None => {
                    return Err(str_to_string("missing requestId"));
                },
            },
            None => {
                return Err(str_to_string("missing requestId"));
            },
        };
        let result = match params {
            JsonValue::Object(mut fields) => crate::json::take_field(&mut fields, "result"),
            _ => None,
        };
        let result = match result {
            Some(v) => v,
            None => {
                return Err(str_to_string("missing `result`"));
            },
        };
        Ok(RpcCall::RespondToServerRequest { workspace_id, request_id, result })
    } else if str_eq(method, "remember_approval_rule") {
        let workspace_id = parse_string(&params, "workspaceId")?;
        let command = parse_string_array(&params, "command")?;
        Ok(RpcCall::RememberApprovalRule { workspace_id, command })
    } else {
        let mut e = str_to_string("unknown method: ");
        e.append(method);
        Err(e)
    }
}

/// The `settings` member of the params, JSON null when absent, as the
/// settings updates read it.
pub open spec fn settings_field_or_null(params: JsonValue) -> JsonValue {
    match spec_get(params, "settings"@) {
        Some(v) => v,
        None => JsonValue::Null,
    }
}

pub open spec fn opt_string_view_matches(s: Option<String>, v: Option<Seq<char>>) -> bool {
    match s {
        Some(x) => v == Some(x@),
        None => v is None,
    }
}

/// The wire methods the dispatcher accepts.
pub open spec fn known_method(m: Seq<char>) -> bool {
    ||| m == "ping"@
    ||| m == "list_workspaces"@
    ||| m == "is_workspace_path_dir"@
    ||| m == "add_workspace"@
    ||| m == "add_worktree"@
    ||| m == "connect_workspace"@
    ||| m == "remove_workspace"@
    ||| m == "remove_worktree"@
    ||| m == "rename_worktree"@
    ||| m == "rename_worktree_upstream"@
    ||| m == "update_workspace_settings"@
    ||| m == "update_workspace_codex_bin"@
    ||| m == "list_workspace_files"@
    ||| m == "read_workspace_file"@
    ||| m == "get_app_settings"@
    ||| m == "update_app_settings"@
    ||| m == "get_codex_config_path"@
    ||| m == "start_thread"@
    ||| m == "resume_thread"@
    ||| m == "list_threads"@
    ||| m == "archive_thread"@
    ||| m == "send_user_message"@
    ||| m == "turn_interrupt"@
    ||| m == "start_review"@
    ||| m == "model_list"@
    ||| m == "collaboration_mode_list"@
    ||| m == "account_rate_limits"@
    ||| m == "skills_list"@
    ||| m == "respond_to_server_request"@
    ||| m == "remember_approval_rule"@
}

} // verus!
