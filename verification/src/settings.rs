//! Application-wide settings, their JSON form, and the merge with the
//! externally stored experimental flags.

use vstd::prelude::*;

use crate::json::{spec_get, JsonValue};
use crate::text::str_to_string;
use crate::workspace::{clone_opt_string, WorkspaceSettings};

verus! {

/// The daemon's own settings file: the default child binary and four
/// experimental feature flags.
#[derive(Debug)]
pub struct AppSettings {
    pub codex_bin: Option<String>,
    pub experimental_collab_enabled: bool,
    pub experimental_collaboration_modes_enabled: bool,
    pub experimental_steer_enabled: bool,
    pub experimental_unified_exec_enabled: bool,
}

impl Clone for AppSettings {
    fn clone(&self) -> (res: Self)
        ensures
            res == *self,
    {
        AppSettings {
            codex_bin: clone_opt_string(&self.codex_bin),
            experimental_collab_enabled: self.experimental_collab_enabled,
            experimental_collaboration_modes_enabled: self.experimental_collaboration_modes_enabled,
            experimental_steer_enabled: self.experimental_steer_enabled,
            experimental_unified_exec_enabled: self.experimental_unified_exec_enabled,
        }
    }
}

impl Default for AppSettings {
    fn default() -> (res: Self)
        ensures
            res.codex_bin is None,
            !res.experimental_collab_enabled,
            !res.experimental_collaboration_modes_enabled,
            !res.experimental_steer_enabled,
            !res.experimental_unified_exec_enabled,
    {
        AppSettings {
            codex_bin: None,
            experimental_collab_enabled: false,
            experimental_collaboration_modes_enabled: false,
            experimental_steer_enabled: false,
            experimental_unified_exec_enabled: false,
        }
    }
}

/// Reads merge the external config file on top of the stored settings:
/// a flag read from that file replaces the stored one.
pub fn merge_app_settings(
    base: &AppSettings,
    collab: Option<bool>,
    collaboration_modes: Option<bool>,
    steer: Option<bool>,
    unified_exec: Option<bool>,
) -> (r: AppSettings)
    ensures
        r.codex_bin == base.codex_bin,
        r.experimental_collab_enabled == match collab {
            Some(b) => b,
            None => base.experimental_collab_enabled,
        },
        r.experimental_collaboration_modes_enabled == match collaboration_modes {
            Some(b) => b,
            None => base.experimental_collaboration_modes_enabled,
        },
        r.experimental_steer_enabled == match steer {
            Some(b) => b,
            None => base.experimental_steer_enabled,
        },
        r.experimental_unified_exec_enabled == match unified_exec {
            Some(b) => b,
            None => base.experimental_unified_exec_enabled,
        },
{
    AppSettings {
        codex_bin: clone_opt_string(&base.codex_bin),
        experimental_collab_enabled: match collab {
            Some(b) => b,
            None => base.experimental_collab_enabled,
        },
        experimental_collaboration_modes_enabled: match collaboration_modes {
            Some(b) => b,
            None => base.experimental_collaboration_modes_enabled,
        },
        experimental_steer_enabled: match steer {
            Some(b) => b,
            None => base.experimental_steer_enabled,
        },
        experimental_unified_exec_enabled: match unified_exec {
            Some(b) => b,
            None => base.experimental_unified_exec_enabled,
        },
    }
}

/// Whether a member is absent, JSON null, or a bool: the shapes a flag
/// field accepts.
pub open spec fn flag_field_ok(v: JsonValue, key: Seq<char>) -> bool {
    match spec_get(v, key) {
        None => true,
        Some(x) => x is Bool || x is Null,
    }
}

/// The value of a flag field; absent or null reads false.
pub open spec fn spec_flag(v: JsonValue, key: Seq<char>) -> bool {
    match spec_get(v, key) {
        Some(JsonValue::Bool(b)) => b,
        _ => false,
    }
}

/// Whether a member is absent, null, or a string: the shapes an optional
/// text field accepts.
pub open spec fn text_field_ok(v: JsonValue, key: Seq<char>) -> bool {
    match spec_get(v, key) {
        None => true,
        Some(x) => x is Text || x is Null,
    }
}

/// The value of an optional text field.
pub open spec fn spec_text_field(v: JsonValue, key: Seq<char>) -> Option<Seq<char>> {
    match spec_get(v, key) {
        Some(JsonValue::Text(s)) => Some(s@),
        _ => None,
    }
}

/// Whether a member is absent, null, or a `u32`: the shapes `sort_order`
/// accepts.
pub open spec fn order_field_ok(v: JsonValue, key: Seq<char>) -> bool {
    match spec_get(v, key) {
        None => true,
        Some(x) => x is Null || (x matches JsonValue::Uint(n) && n <= u32::MAX as u64),
    }
}

pub open spec fn spec_order_field(v: JsonValue, key: Seq<char>) -> Option<u32> {
    match spec_get(v, key) {
        Some(JsonValue::Uint(n)) => if n <= u32::MAX as u64 {
            Some(n as u32)
        } else {
            None
        },
        _ => None,
    }
}

pub open spec fn workspace_settings_ok(v: JsonValue) -> bool {
    &&& v is Object
    &&& flag_field_ok(v, "sidebar_collapsed"@)
    &&& order_field_ok(v, "sort_order"@)
}

/// Decodes a `settings` argument for a workspace: an object with an
/// optional `sidebar_collapsed` bool and an optional `sort_order` number.
pub fn parse_workspace_settings(v: &JsonValue) -> (r: Result<WorkspaceSettings, String>)
    ensures
        r is Ok <==> workspace_settings_ok(*v),
        match r {
            Ok(s) => s.sidebar_collapsed == spec_flag(*v, "sidebar_collapsed"@) && s.sort_order
                == spec_order_field(*v, "sort_order"@),
            Err(e) => e@ == "invalid `settings`"@,
        },
{
    if !matches!(v, JsonValue::Object(_)) {
        return Err(str_to_string("invalid `settings`"));
    }
    let sidebar_collapsed = match v.get("sidebar_collapsed") {
        None => false,
        Some(JsonValue::Bool(b)) => *b,
        Some(JsonValue::Null) => false,
        Some(_) => {
            return Err(str_to_string("invalid `settings`"));
        },
    };
    let sort_order = match v.get("sort_order") {
        None => None,
        Some(JsonValue::Null) => None,
        Some(JsonValue::Uint(n)) => {
            if *n <= 0xFFFF_FFFFu64 {
                Some(*n as u32)
            } else {
                return Err(str_to_string("invalid `settings`"));
            }
        },
        Some(_) => {
            return Err(str_to_string("invalid `settings`"));
        },
    };
    Ok(WorkspaceSettings { sidebar_collapsed, sort_order })
}

pub open spec fn app_settings_ok(v: JsonValue) -> bool {
    &&& v is Object
    &&& text_field_ok(v, "codex_bin"@)
    &&& flag_field_ok(v, "experimental_collab_enabled"@)
    &&& flag_field_ok(v, "experimental_collaboration_modes_enabled"@)
    &&& flag_field_ok(v, "experimental_steer_enabled"@)
    &&& flag_field_ok(v, "experimental_unified_exec_enabled"@)
}

/// Decodes a `settings` argument for the application: an optional child
/// binary path and the four experimental flags.
pub fn parse_app_settings(v: &JsonValue) -> (r: Result<AppSettings, String>)
    ensures
        r is Ok <==> app_settings_ok(*v),
        match r {
            Ok(s) => {
                &&& match s.codex_bin {
                    Some(b) => spec_text_field(*v, "codex_bin"@) == Some(b@),
                    None => spec_text_field(*v, "codex_bin"@) is None,
                }
                &&& s.experimental_collab_enabled == spec_flag(*v, "experimental_collab_enabled"@)
                &&& s.experimental_collaboration_modes_enabled == spec_flag(
                    *v,
                    "experimental_collaboration_modes_enabled"@,
                )
                &&& s.experimental_steer_enabled == spec_flag(*v, "experimental_steer_enabled"@)
                &&& s.experimental_unified_exec_enabled == spec_flag(
                    *v,
                    "experimental_unified_exec_enabled"@,
                )
            },
            Err(e) => e@ == "invalid `settings`"@,
        },
{
    if !matches!(v, JsonValue::Object(_)) {
        return Err(str_to_string("invalid `settings`"));
    }
    let codex_bin = match v.get("codex_bin") {
        None => None,
        Some(JsonValue::Null) => None,
        Some(JsonValue::Text(s)) => Some(s.clone()),
        Some(_) => {
            return Err(str_to_string("invalid `settings`"));
        },
    };
    let experimental_collab_enabled = match parse_flag(v, "experimental_collab_enabled") {
        Ok(b) => b,
        Err(e) => {
            return Err(e);
        },
    };
    let experimental_collaboration_modes_enabled = match parse_flag(
        v,
        "experimental_collaboration_modes_enabled",
    ) {
        Ok(b) => b,
        Err(e) => {
            return Err(e);
        },
    };
    let experimental_steer_enabled = match parse_flag(v, "experimental_steer_enabled") {
        Ok(b) => b,
        Err(e) => {
            return Err(e);
        },
    };
    let experimental_unified_exec_enabled = match parse_flag(v, "experimental_unified_exec_enabled")
        {
        Ok(b) => b,
        Err(e) => {
            return Err(e);
        },
    };
    Ok(
        AppSettings {
            codex_bin,
            experimental_collab_enabled,
            experimental_collaboration_modes_enabled,
            experimental_steer_enabled,
            experimental_unified_exec_enabled,
        },
    )
}

fn parse_flag(v: &JsonValue, key: &str) -> (r: Result<bool, String>)
    ensures
        r is Ok <==> flag_field_ok(*v, key@),
        match r {
            Ok(b) => b == spec_flag(*v, key@),
            Err(e) => e@ == "invalid `settings`"@,
        },
{
    match v.get(key) {
        None => Ok(false),
        Some(JsonValue::Null) => Ok(false),
        Some(JsonValue::Bool(b)) => Ok(*b),
        Some(_) => Err(str_to_string("invalid `settings`")),
    }
}

} // verus!
