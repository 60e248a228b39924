//! The frames and parameter objects the daemon writes towards a child:
//! request and response frames, the pass-through thread operations, and
//! the assembly of a user message into a `turn/start` request.

use vstd::prelude::*;

use crate::json::{lemma_lookup_at, spec_get, spec_lookup, spec_text, spec_uint, JsonValue};
use crate::text::{spec_starts_with, spec_trim, str_starts_with, str_to_string, str_trim,
    strs_view};

verus! {

/// The `{id, method, params}` frame `send_request` enqueues.
pub fn make_request_frame(id: u64, method: &str, params: JsonValue) -> (r: JsonValue)
    ensures
        spec_get(r, "id"@) matches Some(v) && spec_uint(v) == Some(id),
        spec_get(r, "method"@) matches Some(m) && spec_text(m) == Some(method@),
        spec_get(r, "params"@) == Some(params),
        r is Object && r->Object_0@.len() == 3,
{
    let mut fields: Vec<(String, JsonValue)> = Vec::new();
    fields.push((str_to_string("id"), JsonValue::Uint(id)));
    fields.push((str_to_string("method"), JsonValue::Text(str_to_string(method))));
    fields.push((str_to_string("params"), params));
    proof {
        reveal_strlit("id");
        reveal_strlit("method");
        reveal_strlit("params");
        assert(fields@[0].0@ == "id"@ && fields@[1].0@ == "method"@ && fields@[2].0@
            == "params"@);
        assert("id"@.len() == 2 && "method"@.len() == 6 && "params"@.len() == 6);
        assert("method"@[0] == 'm' && "params"@[0] == 'p');
        lemma_lookup_at(fields@, 0);
        lemma_lookup_at(fields@, 1);
        lemma_lookup_at(fields@, 2);
    }
    JsonValue::Object(fields)
}

/// The `{id, result}` frame `send_response` enqueues towards the child.
pub fn make_response_frame(id: u64, result: JsonValue) -> (r: JsonValue)
    ensures
        spec_get(r, "id"@) matches Some(v) && spec_uint(v) == Some(id),
        spec_get(r, "result"@) == Some(result),
        r is Object && r->Object_0@.len() == 2,
{
    let mut fields: Vec<(String, JsonValue)> = Vec::new();
    fields.push((str_to_string("id"), JsonValue::Uint(id)));
    fields.push((str_to_string("result"), result));
    proof {
        reveal_strlit("id");
        reveal_strlit("result");
        assert(fields@[0].0@ == "id"@ && fields@[1].0@ == "result"@);
        assert("id"@.len() == 2 && "result"@.len() == 6);
        lemma_lookup_at(fields@, 0);
        lemma_lookup_at(fields@, 1);
    }
    JsonValue::Object(fields)
}

/// The `{ok: true}` result value.
pub fn ok_result() -> (r: JsonValue)
    ensures
        spec_get(r, "ok"@) == Some(JsonValue::Bool(true)),
        r is Object && r->Object_0@.len() == 1,
{
    let mut fields: Vec<(String, JsonValue)> = Vec::new();
    fields.push((str_to_string("ok"), JsonValue::Bool(true)));
    proof {
        reveal_strlit("ok");
        lemma_lookup_at(fields@, 0);
    }
    JsonValue::Object(fields)
}

/// The `{ok: true, rulesPath}` result of remembering an approval rule.
pub fn ok_with_rules_path(rules_path: &str) -> (r: JsonValue)
    ensures
        spec_get(r, "ok"@) == Some(JsonValue::Bool(true)),
        spec_get(r, "rulesPath"@) matches Some(p) && spec_text(p) == Some(rules_path@),
        r is Object && r->Object_0@.len() == 2,
{
    let mut fields: Vec<(String, JsonValue)> = Vec::new();
    fields.push((str_to_string("ok"), JsonValue::Bool(true)));
    fields.push((str_to_string("rulesPath"), JsonValue::Text(str_to_string(rules_path))));
    proof {
        reveal_strlit("ok");
        reveal_strlit("rulesPath");
        assert(fields@[0].0@ == "ok"@ && fields@[1].0@ == "rulesPath"@);
        assert("ok"@.len() == 2 && "rulesPath"@.len() == 9);
        lemma_lookup_at(fields@, 0);
        lemma_lookup_at(fields@, 1);
    }
    JsonValue::Object(fields)
}

/// The `thread/start` params: the workspace directory and the default
/// approval policy.
pub fn start_thread_params(cwd: &str) -> (r: JsonValue)
    ensures
        spec_get(r, "cwd"@) matches Some(c) && spec_text(c) == Some(cwd@),
        spec_get(r, "approvalPolicy"@) matches Some(p) && spec_text(p) == Some("on-request"@),
        r is Object && r->Object_0@.len() == 2,
{
    let mut fields: Vec<(String, JsonValue)> = Vec::new();
    fields.push((str_to_string("cwd"), JsonValue::Text(str_to_string(cwd))));
    fields.push((str_to_string("approvalPolicy"), JsonValue::Text(str_to_string("on-request"))));
    proof {
        reveal_strlit("cwd");
        reveal_strlit("approvalPolicy");
        reveal_strlit("on-request");
        assert(fields@[0].0@ == "cwd"@ && fields@[1].0@ == "approvalPolicy"@);
        assert("cwd"@.len() == 3 && "approvalPolicy"@.len() == 14);
        lemma_lookup_at(fields@, 0);
        lemma_lookup_at(fields@, 1);
    }
    JsonValue::Object(fields)
}

/// A one-field `{threadId}` params object, as `thread/resume` and
/// `thread/archive` take.
pub fn thread_id_params(thread_id: &str) -> (r: JsonValue)
    ensures
        spec_get(r, "threadId"@) matches Some(t) && spec_text(t) == Some(thread_id@),
        r is Object && r->Object_0@.len() == 1,
{
    let mut fields: Vec<(String, JsonValue)> = Vec::new();
    fields.push((str_to_string("threadId"), JsonValue::Text(str_to_string(thread_id))));
    proof {
        reveal_strlit("threadId");
        lemma_lookup_at(fields@, 0);
    }
    JsonValue::Object(fields)
}

/// The `thread/list` params: cursor and limit, null when absent.
pub fn list_threads_params(cursor: Option<String>, limit: Option<u32>) -> (r: JsonValue)
    ensures
        spec_get(r, "cursor"@) == Some(
            match cursor {
                Some(c) => JsonValue::Text(c),
                None => JsonValue::Null,
            },
        ),
        spec_get(r, "limit"@) matches Some(l) && l == match limit {
            Some(n) => JsonValue::Uint(n as u64),
            None => JsonValue::Null,
        },
        r is Object && r->Object_0@.len() == 2,
{
    let cursor_value = match cursor {
        Some(c) => JsonValue::Text(c),
        None => JsonValue::Null,
    };
    let limit_value = match limit {
        Some(n) => JsonValue::Uint(n as u64),
        None => JsonValue::Null,
    };
    let mut fields: Vec<(String, JsonValue)> = Vec::new();
    fields.push((str_to_string("cursor"), cursor_value));
    fields.push((str_to_string("limit"), limit_value));
    proof {
        reveal_strlit("cursor");
        reveal_strlit("limit");
        assert(fields@[0].0@ == "cursor"@ && fields@[1].0@ == "limit"@);
        assert("cursor"@.len() == 6 && "limit"@.len() == 5);
        lemma_lookup_at(fields@, 0);
        lemma_lookup_at(fields@, 1);
    }
    JsonValue::Object(fields)
}

/// The `turn/interrupt` params.
pub fn turn_interrupt_params(thread_id: &str, turn_id: &str) -> (r: JsonValue)
    ensures
        spec_get(r, "threadId"@) matches Some(t) && spec_text(t) == Some(thread_id@),
        spec_get(r, "turnId"@) matches Some(u) && spec_text(u) == Some(turn_id@),
        r is Object && r->Object_0@.len() == 2,
{
    let mut fields: Vec<(String, JsonValue)> = Vec::new();
    fields.push((str_to_string("threadId"), JsonValue::Text(str_to_string(thread_id))));
    fields.push((str_to_string("turnId"), JsonValue::Text(str_to_string(turn_id))));
    proof {
        reveal_strlit("threadId");
        reveal_strlit("turnId");
        assert(fields@[0].0@ == "threadId"@ && fields@[1].0@ == "turnId"@);
        assert("threadId"@.len() == 8 && "turnId"@.len() == 6);
        lemma_lookup_at(fields@, 0);
        lemma_lookup_at(fields@, 1);
    }
    JsonValue::Object(fields)
}

/// The `review/start` params: thread and target, with the delivery member
/// only when one was given.
pub fn start_review_params(thread_id: &str, target: JsonValue, delivery: Option<String>) -> (r:
    JsonValue)
    ensures
        spec_get(r, "threadId"@) matches Some(t) && spec_text(t) == Some(thread_id@),
        spec_get(r, "target"@) == Some(target),
        match delivery {
            Some(d) => spec_get(r, "delivery"@) matches Some(x) && spec_text(x) == Some(d@),
            None => spec_get(r, "delivery"@) is None,
        },
{
    let has_delivery = delivery.is_some();
    let mut fields: Vec<(String, JsonValue)> = Vec::new();
    fields.push((str_to_string("threadId"), JsonValue::Text(str_to_string(thread_id))));
    fields.push((str_to_string("target"), target));
    match delivery {
        Some(d) => {
            fields.push((str_to_string("delivery"), JsonValue::Text(d)));
        },
        None => {},
    }
    proof {
        reveal_strlit("threadId");
        reveal_strlit("target");
        reveal_strlit("delivery");
        assert(fields@[0].0@ == "threadId"@ && fields@[1].0@ == "target"@);
        assert("threadId"@.len() == 8 && "target"@.len() == 6 && "delivery"@.len() == 8);
        assert("threadId"@[0] == 't' && "delivery"@[0] == 'd');
        lemma_lookup_at(fields@, 0);
        lemma_lookup_at(fields@, 1);
        if has_delivery {
            assert(fields@[2].0@ == "delivery"@);
            lemma_lookup_at(fields@, 2);
        } else {
            assert(spec_lookup(fields@, "delivery"@) is None) by {
                assert(fields@[0].0@ != "delivery"@);
                assert(fields@.skip(1)[0] == fields@[1]);
                assert(fields@.skip(1)[0].0@ != "delivery"@);
                assert(spec_lookup(fields@, "delivery"@) == spec_lookup(
                    fields@.skip(1),
                    "delivery"@,
                ));
                assert(spec_lookup(fields@.skip(1), "delivery"@) == spec_lookup(
                    fields@.skip(1).skip(1),
                    "delivery"@,
                ));
                assert(fields@.skip(1).skip(1).len() == 0);
            }
        }
    }
    JsonValue::Object(fields)
}

/// An empty params object, as the model and collaboration-mode listings
/// take.
pub fn empty_params() -> (r: JsonValue)
    ensures
        r is Object && r->Object_0@.len() == 0,
{
    JsonValue::Object(Vec::new())
}

/// The `skills/list` params: the workspace directory.
pub fn skills_list_params(cwd: &str) -> (r: JsonValue)
    ensures
        spec_get(r, "cwd"@) matches Some(c) && spec_text(c) == Some(cwd@),
        r is Object && r->Object_0@.len() == 1,
{
    let mut fields: Vec<(String, JsonValue)> = Vec::new();
    fields.push((str_to_string("cwd"), JsonValue::Text(str_to_string(cwd))));
    proof {
        reveal_strlit("cwd");
        lemma_lookup_at(fields@, 0);
    }
    JsonValue::Object(fields)
}

/// An image reference is remote when it is a data URL or an HTTP(S) URL;
/// anything else is a local file path.
pub open spec fn is_remote_image(p: Seq<char>) -> bool {
    ||| spec_starts_with(p, "data:"@)
    ||| spec_starts_with(p, "http://"@)
    ||| spec_starts_with(p, "https://"@)
}

/// The `{type: "text", text}` input element.
pub open spec fn is_text_item(v: JsonValue, t: Seq<char>) -> bool {
    &&& v is Object
    &&& v->Object_0@.len() == 2
    &&& (spec_lookup(v->Object_0@, "type"@) matches Some(k) && spec_text(k) == Some("text"@))
    &&& (spec_lookup(v->Object_0@, "text"@) matches Some(x) && spec_text(x) == Some(t))
}

/// The input element for one image reference: `{type: "image", url}` for a
/// remote one, `{type: "localImage", path}` for a local one.
pub open spec fn is_image_item(v: JsonValue, p: Seq<char>) -> bool {
    &&& v is Object
    &&& v->Object_0@.len() == 2
    &&& if is_remote_image(p) {
        &&& (spec_lookup(v->Object_0@, "type"@) matches Some(k) && spec_text(k) == Some("image"@))
        &&& (spec_lookup(v->Object_0@, "url"@) matches Some(x) && spec_text(x) == Some(p))
    } else {
        &&& (spec_lookup(v->Object_0@, "type"@) matches Some(k) && spec_text(k) == Some(
            "localImage"@,
        ))
        &&& (spec_lookup(v->Object_0@, "path"@) matches Some(x) && spec_text(x) == Some(p))
    }
}

/// The image references kept from the request: each trimmed, empties
/// dropped, order preserved.
pub open spec fn kept_images(paths: Seq<Seq<char>>) -> Seq<Seq<char>>
    decreases paths.len(),
{
    if paths.len() == 0 {
        Seq::empty()
    } else {
        let rest = kept_images(paths.drop_last());
        if spec_trim(paths.last()).len() == 0 {
            rest
        } else {
            rest.push(spec_trim(paths.last()))
        }
    }
}

fn make_text_item(t: String) -> (r: JsonValue)
    ensures
        is_text_item(r, t@),
{
    let mut fields: Vec<(String, JsonValue)> = Vec::new();
    fields.push((str_to_string("type"), JsonValue::Text(str_to_string("text"))));
    fields.push((str_to_string("text"), JsonValue::Text(t)));
    proof {
        reveal_strlit("type");
        reveal_strlit("text");
        assert(fields@[0].0@ == "type"@ && fields@[1].0@ == "text"@);
        assert("type"@[1] == 'y' && "text"@[1] == 'e');
        lemma_lookup_at(fields@, 0);
        lemma_lookup_at(fields@, 1);
    }
    JsonValue::Object(fields)
}

fn make_image_item(p: String) -> (r: JsonValue)
    ensures
        is_image_item(r, p@),
{
    let remote = str_starts_with(p.as_str(), "data:") || str_starts_with(p.as_str(), "http://")
        || str_starts_with(p.as_str(), "https://");
    let mut fields: Vec<(String, JsonValue)> = Vec::new();
    if remote {
        fields.push((str_to_string("type"), JsonValue::Text(str_to_string("image"))));
        fields.push((str_to_string("url"), JsonValue::Text(p)));
        proof {
            reveal_strlit("type");
            reveal_strlit("url");
            reveal_strlit("image");
            assert(fields@[0].0@ == "type"@ && fields@[1].0@ == "url"@);
            assert("type"@.len() == 4 && "url"@.len() == 3);
            lemma_lookup_at(fields@, 0);
            lemma_lookup_at(fields@, 1);
        }
    } else {
        fields.push((str_to_string("type"), JsonValue::Text(str_to_string("localImage"))));
        fields.push((str_to_string("path"), JsonValue::Text(p)));
        proof {
            reveal_strlit("type");
            reveal_strlit("path");
            reveal_strlit("localImage");
            assert(fields@[0].0@ == "type"@ && fields@[1].0@ == "path"@);
            assert("type"@[0] == 't' && "path"@[0] == 'p');
            lemma_lookup_at(fields@, 0);
            lemma_lookup_at(fields@, 1);
        }
    }
    JsonValue::Object(fields)
}

/// The sandbox policy object for an access mode: full access and
/// read-only are bare markers; anything else is a workspace-write policy
/// rooted at the workspace path with network access on.
pub open spec fn sandbox_policy_ok(v: JsonValue, mode: Seq<char>, path: Seq<char>) -> bool {
    if mode == "full-access"@ {
        &&& v is Object
        &&& v->Object_0@.len() == 1
        &&& (spec_lookup(v->Object_0@, "type"@) matches Some(k) && spec_text(k) == Some(
            "dangerFullAccess"@,
        ))
    } else if mode == "read-only"@ {
        &&& v is Object
        &&& v->Object_0@.len() == 1
        &&& (spec_lookup(v->Object_0@, "type"@) matches Some(k) && spec_text(k) == Some(
            "readOnly"@,
        ))
    } else {
        &&& v is Object
        &&& v->Object_0@.len() == 3
        &&& (spec_lookup(v->Object_0@, "type"@) matches Some(k) && spec_text(k) == Some(
            "workspaceWrite"@,
        ))
        &&& (spec_lookup(v->Object_0@, "writableRoots"@) matches Some(w) && w is Array
            && w->Array_0@.len() == 1 && spec_text(w->Array_0@[0]) == Some(path))
        &&& (spec_lookup(v->Object_0@, "networkAccess"@) matches Some(n) && n == JsonValue::Bool(
            true,
        ))
    }
}

fn make_sandbox_policy(mode: &str, path: &str) -> (r: JsonValue)
    ensures
        sandbox_policy_ok(r, mode@, path@),
{
    let mut fields: Vec<(String, JsonValue)> = Vec::new();
    if crate::text::str_eq(mode, "full-access") {
        fields.push((str_to_string("type"), JsonValue::Text(str_to_string("dangerFullAccess"))));
        proof {
            reveal_strlit("type");
            reveal_strlit("dangerFullAccess");
            lemma_lookup_at(fields@, 0);
        }
    } else if crate::text::str_eq(mode, "read-only") {
        fields.push((str_to_string("type"), JsonValue::Text(str_to_string("readOnly"))));
        proof {
            reveal_strlit("type");
            reveal_strlit("readOnly");
            lemma_lookup_at(fields@, 0);
        }
    } else {
        let mut roots: Vec<JsonValue> = Vec::new();
        roots.push(JsonValue::Text(str_to_string(path)));
        fields.push((str_to_string("type"), JsonValue::Text(str_to_string("workspaceWrite"))));
        fields.push((str_to_string("writableRoots"), JsonValue::Array(roots)));
        fields.push((str_to_string("networkAccess"), JsonValue::Bool(true)));
        proof {
            reveal_strlit("type");
            reveal_strlit("writableRoots");
            reveal_strlit("networkAccess");
            reveal_strlit("workspaceWrite");
            assert(fields@[0].0@ == "type"@ && fields@[1].0@ == "writableRoots"@ && fields@[2].0@
                == "networkAccess"@);
            assert("type"@.len() == 4 && "writableRoots"@.len() == 13 && "networkAccess"@.len()
                == 13);
            assert("writableRoots"@[0] == 'w' && "networkAccess"@[0] == 'n');
            lemma_lookup_at(fields@, 0);
            lemma_lookup_at(fields@, 1);
            lemma_lookup_at(fields@, 2);
        }
    }
    JsonValue::Object(fields)
}

/// The `turn/start` params assembled from a user message: the input array
/// (trimmed text first, then each kept image), the workspace directory,
/// and the approval and sandbox policies derived from the access mode.
/// Fails exactly when nothing remains to send.
pub fn turn_start_params(
    workspace_path: &str,
    thread_id: &str,
    text: &str,
    model: Option<String>,
    effort: Option<String>,
    access_mode: Option<String>,
    images: Option<Vec<String>>,
    collaboration_mode: Option<JsonValue>,
) -> (r: Result<JsonValue, String>)
    ensures
        ({
            let t = spec_trim(text@);
            let imgs = kept_images(
                match images {
                    Some(v) => strs_view(v@),
                    None => Seq::empty(),
                },
            );
            let mode = match access_mode {
                Some(m) => m@,
                None => "current"@,
            };
            match r {
                Ok(params) => {
                    &&& t.len() + imgs.len() > 0
                    &&& params is Object
                    &&& params->Object_0@.len() == 8
                    &&& (spec_get(params, "threadId"@) matches Some(x) && spec_text(x) == Some(
                        thread_id@,
                    ))
                    &&& (spec_get(params, "input"@) matches Some(inp) && inp is Array && {
                        let items = inp->Array_0@;
                        let offset: int = if t.len() > 0 {
                            1
                        } else {
                            0
                        };
                        &&& items.len() == offset + imgs.len()
                        &&& (t.len() > 0 ==> is_text_item(items[0], t))
                        &&& forall|k: int|
                            0 <= k < imgs.len() ==> is_image_item(
                                #[trigger] items[offset + k],
                                imgs[k],
                            )
                    })
                    &&& (spec_get(params, "cwd"@) matches Some(x) && spec_text(x) == Some(
                        workspace_path@,
                    ))
                    &&& (spec_get(params, "approvalPolicy"@) matches Some(x) && spec_text(x)
                        == Some(
                        if mode == "full-access"@ {
                            "never"@
                        } else {
                            "on-request"@
                        },
                    ))
                    &&& (spec_get(params, "sandboxPolicy"@) matches Some(sp) && sandbox_policy_ok(
                        sp,
                        mode,
                        workspace_path@,
                    ))
                    &&& spec_get(params, "model"@) == Some(
                        match model {
                            Some(m) => JsonValue::Text(m),
                            None => JsonValue::Null,
                        },
                    )
                    &&& spec_get(params, "effort"@) == Some(
                        match effort {
                            Some(e) => JsonValue::Text(e),
                            None => JsonValue::Null,
                        },
                    )
                    &&& spec_get(params, "collaborationMode"@) == Some(
                        match collaboration_mode {
                            Some(c) => c,
                            None => JsonValue::Null,
                        },
                    )
                },
                Err(e) => {
                    &&& t.len() == 0
                    &&& imgs.len() == 0
                    &&& e@ == "empty user message"@
                },
            }
        }),
{
    let mode = match &access_mode {
        Some(m) => m.clone(),
        None => str_to_string("current"),
    };
    let trimmed_text = str_trim(text);
    let mut input: Vec<JsonValue> = Vec::new();
    let has_text = trimmed_text.as_str().unicode_len() > 0;
    if has_text {
        input.push(make_text_item(trimmed_text));
    }
    let ghost t = spec_trim(text@);
    let ghost offset: int = if t.len() > 0 {
        1int
    } else {
        0int
    };
    match &images {
        Some(paths) => {
            let ghost views = strs_view(paths@);
            let mut i: usize = 0;
            proof {
                assert(views.take(0) =~= Seq::<Seq<char>>::empty());
                assert(kept_images(views.take(0)) =~= Seq::<Seq<char>>::empty());
            }
            while i < paths.len()
                invariant
                    0 <= i <= paths@.len(),
                    views == strs_view(paths@),
                    t == spec_trim(text@),
                    offset == if t.len() > 0 {
                        1int
                    } else {
                        0int
                    },
                    input@.len() == offset + kept_images(views.take(i as int)).len(),
                    t.len() > 0 ==> input@.len() > 0 && is_text_item(input@[0], t),
                    forall|k: int|
                        0 <= k < kept_images(views.take(i as int)).len() ==> is_image_item(
                            #[trigger] input@[offset + k],
                            kept_images(views.take(i as int))[k],
                        ),
                decreases paths@.len() - i,
            {
                proof {
                    assert(views.take(i + 1).drop_last() =~= views.take(i as int));
                    assert(views.take(i + 1).last() == views[i as int]);
                }
                let p = str_trim(paths[i].as_str());
                if p.as_str().unicode_len() > 0 {
                    input.push(make_image_item(p));
                }
                i += 1;
            }
            proof {
                assert(views.take(i as int) =~= views);
            }
        },
        None => {},
    }
    if input.len() == 0 {
        return Err(str_to_string("empty user message"));
    }
    let approval = if crate::text::str_eq(mode.as_str(), "full-access") {
        str_to_string("never")
    } else {
        str_to_string("on-request")
    };
    let sandbox = make_sandbox_policy(mode.as_str(), workspace_path);
    let model_value = match model {
        Some(m) => JsonValue::Text(m),
        None => JsonValue::Null,
    };
    let effort_value = match effort {
        Some(e) => JsonValue::Text(e),
        None => JsonValue::Null,
    };
    let collab_value = match collaboration_mode {
        Some(c) => c,
        None => JsonValue::Null,
    };
    let mut fields: Vec<(String, JsonValue)> = Vec::new();
    fields.push((str_to_string("threadId"), JsonValue::Text(str_to_string(thread_id))));
    fields.push((str_to_string("input"), JsonValue::Array(input)));
    fields.push((str_to_string("cwd"), JsonValue::Text(str_to_string(workspace_path))));
    fields.push((str_to_string("approvalPolicy"), JsonValue::Text(approval)));
    fields.push((str_to_string("sandboxPolicy"), sandbox));
    fields.push((str_to_string("model"), model_value));
    fields.push((str_to_string("effort"), effort_value));
    fields.push((str_to_string("collaborationMode"), collab_value));
    proof {
        reveal_strlit("threadId");
        reveal_strlit("input");
        reveal_strlit("cwd");
        reveal_strlit("approvalPolicy");
        reveal_strlit("sandboxPolicy");
        reveal_strlit("model");
        reveal_strlit("effort");
        reveal_strlit("collaborationMode");
        reveal_strlit("full-access");
        reveal_strlit("never");
        reveal_strlit("on-request");
        reveal_strlit("current");
        assert(fields@[0].0@ == "threadId"@ && fields@[1].0@ == "input"@ && fields@[2].0@
            == "cwd"@ && fields@[3].0@ == "approvalPolicy"@ && fields@[4].0@ == "sandboxPolicy"@
            && fields@[5].0@ == "model"@ && fields@[6].0@ == "effort"@ && fields@[7].0@
            == "collaborationMode"@);
        assert("threadId"@.len() == 8 && "input"@.len() == 5 && "cwd"@.len() == 3
            && "approvalPolicy"@.len() == 14 && "sandboxPolicy"@.len() == 13 && "model"@.len()
            == 5 && "effort"@.len() == 6 && "collaborationMode"@.len() == 17);
        assert("input"@[0] == 'i' && "model"@[0] == 'm');
        assert("approvalPolicy"@[0] == 'a' && "sandboxPolicy"@[0] == 's');
        lemma_lookup_at(fields@, 0);
        lemma_lookup_at(fields@, 1);
        lemma_lookup_at(fields@, 2);
        lemma_lookup_at(fields@, 3);
        lemma_lookup_at(fields@, 4);
        lemma_lookup_at(fields@, 5);
        lemma_lookup_at(fields@, 6);
        lemma_lookup_at(fields@, 7);
    }
    Ok(JsonValue::Object(fields))
}

/// The approval-rule command with its items trimmed and empties dropped.
pub open spec fn cleaned_command(cmd: Seq<Seq<char>>) -> Seq<Seq<char>>
    decreases cmd.len(),
{
    if cmd.len() == 0 {
        Seq::empty()
    } else {
        let rest = cleaned_command(cmd.drop_last());
        if spec_trim(cmd.last()).len() == 0 {
            rest
        } else {
            rest.push(spec_trim(cmd.last()))
        }
    }
}

/// Trims an approval-rule command, dropping empty items; an empty result
/// is rejected.
pub fn clean_command(command: &Vec<String>) -> (r: Result<Vec<String>, String>)
    ensures
        r is Ok <==> cleaned_command(strs_view(command@)).len() > 0,
        match r {
            Ok(v) => strs_view(v@) == cleaned_command(strs_view(command@)),
            Err(e) => e@ == "empty command"@,
        },
{
    let mut out: Vec<String> = Vec::new();
    let mut i: usize = 0;
    proof {
        assert(strs_view(command@).take(0) =~= Seq::<Seq<char>>::empty());
        assert(strs_view(out@) =~= cleaned_command(strs_view(command@).take(0)));
    }
    while i < command.len()
        invariant
            0 <= i <= command@.len(),
            strs_view(out@) == cleaned_command(strs_view(command@).take(i as int)),
        decreases command@.len() - i,
    {
        proof {
            assert(strs_view(command@).take(i + 1).drop_last() =~= strs_view(command@).take(
                i as int,
            ));
            assert(strs_view(command@).take(i + 1).last() == strs_view(command@)[i as int]);
        }
        let t = str_trim(command[i].as_str());
        if t.as_str().unicode_len() > 0 {
            out.push(t);
            proof {
                assert(strs_view(out@) =~= cleaned_command(strs_view(command@).take(i + 1)));
            }
        } else {
            proof {
                assert(strs_view(out@) =~= cleaned_command(strs_view(command@).take(i + 1)));
            }
        }
        i += 1;
    }
    proof {
        assert(strs_view(command@).take(i as int) =~= strs_view(command@));
    }
    if out.len() == 0 {
        Err(str_to_string("empty command"))
    } else {
        Ok(out)
    }
}

} // verus!
