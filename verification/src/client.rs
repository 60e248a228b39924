//! The client connection's authentication step and the wire frames the
//! daemon sends back: responses, errors, and event notifications.

use vstd::prelude::*;

use crate::json::{spec_get, spec_text, JsonValue};
use crate::params::{parse_auth_token, spec_auth_token};
use crate::text::{str_eq, str_to_string};

verus! {

/// How one frame of a still-unauthenticated connection is answered.
pub enum AuthOutcome {
    /// Not an `auth` call, with an id: reply `unauthorized`.
    Unauthorized { id: u64 },
    /// Not an `auth` call, without an id: drop the frame silently.
    Ignored,
    /// An `auth` call whose token does not match: reply `invalid token`.
    BadToken { id: Option<u64> },
    /// The matching token: reply `{ok:true}`, transition, and subscribe.
    Authenticated { id: Option<u64> },
}

/// The token a frame offers: the `auth` params string or its `token`
/// member, an empty string when absent.
pub open spec fn spec_offered_token(params: JsonValue) -> Seq<char> {
    match spec_auth_token(params) {
        Some(t) => t,
        None => Seq::empty(),
    }
}

/// Answers one inbound frame of an unauthenticated connection, for a
/// daemon configured with `expected_token`.
pub fn auth_step(expected_token: &str, method: &str, params: &JsonValue, id: Option<u64>) -> (r:
    AuthOutcome)
    ensures
        method@ != "auth"@ ==> match id {
            Some(v) => r == AuthOutcome::Unauthorized { id: v },
            None => r == AuthOutcome::Ignored,
        },
        method@ == "auth"@ ==> {
            if spec_offered_token(*params) == expected_token@ {
                r == AuthOutcome::Authenticated { id }
            } else {
                r == AuthOutcome::BadToken { id }
            }
        },
{
    if !str_eq(method, "auth") {
        return match id {
            Some(v) => AuthOutcome::Unauthorized { id: v },
            None => AuthOutcome::Ignored,
        };
    }
    let provided = match parse_auth_token(params) {
        Some(t) => t,
        None => String::new(),
    };
    if str_eq(provided.as_str(), expected_token) {
        AuthOutcome::Authenticated { id }
    } else {
        AuthOutcome::BadToken { id }
    }
}

/// The inbound frame fields a client connection reads: `id`, `method` and
/// `params`, each with the default the daemon substitutes when absent.
pub fn read_frame_fields(frame: &JsonValue) -> (r: (Option<u64>, String, Option<&JsonValue>))
    ensures
        r.0 == crate::session::spec_get_u64(*frame, "id"@),
        r.1@ == match crate::params::spec_get_text(*frame, "method"@) {
            Some(m) => m,
            None => Seq::<char>::empty(),
        },
        match r.2 {
            Some(p) => spec_get(*frame, "params"@) == Some(*p),
            None => spec_get(*frame, "params"@) is None,
        },
{
    let id = match frame.get("id") {
        Some(x) => x.as_u64(),
        None => None,
    };
    let method = match frame.get("method") {
        Some(x) => match x.as_text() {
            Some(m) => m,
            None => String::new(),
        },
        None => String::new(),
    };
    let params = frame.get("params");
    (id, method, params)
}

/// The `{id, error: {message}}` reply frame.
pub fn build_error_response(id: u64, message: &str) -> (r: JsonValue)
    ensures
        crate::session::spec_get_u64(r, "id"@) == Some(id),
        spec_get(r, "error"@) matches Some(e) && spec_get(e, "message"@) matches Some(m)
            && spec_text(m) == Some(message@),
        r is Object && r->Object_0@.len() == 2,
{
    let mut error_fields: Vec<(String, JsonValue)> = Vec::new();
    error_fields.push((str_to_string("message"), JsonValue::Text(str_to_string(message))));
    let mut fields: Vec<(String, JsonValue)> = Vec::new();
    fields.push((str_to_string("id"), JsonValue::Uint(id)));
    fields.push((str_to_string("error"), JsonValue::Object(error_fields)));
    proof {
        reveal_strlit("id");
        reveal_strlit("error");
        reveal_strlit("message");
        assert(fields@[0].0@ == "id"@ && fields@[1].0@ == "error"@);
        assert("id"@.len() == 2 && "error"@.len() == 5);
        crate::json::lemma_lookup_at(fields@, 0);
        crate::json::lemma_lookup_at(fields@, 1);
        let ef = fields@[1].1->Object_0@;
        crate::json::lemma_lookup_at(ef, 0);
    }
    JsonValue::Object(fields)
}

/// The `{id, result}` reply frame.
pub fn build_result_response(id: u64, result: JsonValue) -> (r: JsonValue)
    ensures
        crate::session::spec_get_u64(r, "id"@) == Some(id),
        spec_get(r, "result"@) == Some(result),
        r is Object && r->Object_0@.len() == 2,
{
    let mut fields: Vec<(String, JsonValue)> = Vec::new();
    fields.push((str_to_string("id"), JsonValue::Uint(id)));
    fields.push((str_to_string("result"), result));
    proof {
        reveal_strlit("id");
        reveal_strlit("result");
        assert(fields@[0].0@ == "id"@ && fields@[1].0@ == "result"@);
        assert("id"@.len() == 2 && "result"@.len() == 6);
        crate::json::lemma_lookup_at(fields@, 0);
        crate::json::lemma_lookup_at(fields@, 1);
    }
    JsonValue::Object(fields)
}

/// A child-originated event as the daemon broadcasts it.
pub enum DaemonEvent {
    AppServer(JsonValue),
    TerminalOutput(JsonValue),
}

/// The `{method, params}` notification a forwarder writes for one event.
pub fn build_event_notification(event: DaemonEvent) -> (r: JsonValue)
    ensures
        match event {
            DaemonEvent::AppServer(p) => {
                &&& crate::params::spec_get_text(r, "method"@) == Some("app-server-event"@)
                &&& spec_get(r, "params"@) == Some(p)
            },
            DaemonEvent::TerminalOutput(p) => {
                &&& crate::params::spec_get_text(r, "method"@) == Some("terminal-output"@)
                &&& spec_get(r, "params"@) == Some(p)
            },
        },
        r is Object && r->Object_0@.len() == 2,
{
    let (name, payload) = match event {
        DaemonEvent::AppServer(p) => (str_to_string("app-server-event"), p),
        DaemonEvent::TerminalOutput(p) => (str_to_string("terminal-output"), p),
    };
    let mut fields: Vec<(String, JsonValue)> = Vec::new();
    fields.push((str_to_string("method"), JsonValue::Text(name)));
    fields.push((str_to_string("params"), payload));
    proof {
        reveal_strlit("method");
        reveal_strlit("params");
        reveal_strlit("app-server-event");
        reveal_strlit("terminal-output");
        assert(fields@[0].0@ == "method"@ && fields@[1].0@ == "params"@);
        assert("method"@[0] == 'm' && "params"@[0] == 'p');
        crate::json::lemma_lookup_at(fields@, 0);
        crate::json::lemma_lookup_at(fields@, 1);
    }
    JsonValue::Object(fields)
}

} // verus!
