//! Typed extraction of RPC arguments from a params value, with the exact
//! error texts the protocol promises.

use vstd::prelude::*;

use crate::json::{spec_get, spec_lookup, spec_text, spec_uint, JsonValue};
use crate::text::{str_to_string, strs_view};

verus! {

/// The text under `key`, when `v` is an object and the member is a string.
pub open spec fn spec_get_text(v: JsonValue, key: Seq<char>) -> Option<Seq<char>> {
    match spec_get(v, key) {
        Some(x) => spec_text(x),
        None => None,
    }
}

/// The number under `key`, when the member is a `u64` within `u32` range.
pub open spec fn spec_get_u32(v: JsonValue, key: Seq<char>) -> Option<u32> {
    match spec_get(v, key) {
        Some(x) => match spec_uint(x) {
            Some(n) => if n <= u32::MAX as u64 {
                Some(n as u32)
            } else {
                None
            },
            None => None,
        },
        None => None,
    }
}

pub open spec fn missing_msg(key: Seq<char>) -> Seq<char> {
    "missing `"@ + key + "`"@
}

/// The error a required string argument produces: `missing or invalid`
/// against an object, plain `missing` against anything else.
pub open spec fn string_arg_err(v: JsonValue, key: Seq<char>) -> Seq<char> {
    if v is Object {
        invalid_msg(key)
    } else {
        missing_msg(key)
    }
}

pub open spec fn invalid_msg(key: Seq<char>) -> Seq<char> {
    "missing or invalid `"@ + key + "`"@
}

fn make_missing_msg(key: &str) -> (r: String)
    ensures
        r@ == missing_msg(key@),
{
    let mut e = str_to_string("missing `");
    e.append(key);
    e.append("`");
    e
}

fn make_invalid_msg(key: &str) -> (r: String)
    ensures
        r@ == invalid_msg(key@),
{
    let mut e = str_to_string("missing or invalid `");
    e.append(key);
    e.append("`");
    e
}

/// A required string argument. On an object without a string under `key`
/// the error reads ``missing or invalid `key` ``; on any other params shape
/// it reads ``missing `key` ``.
pub fn parse_string(value: &JsonValue, key: &str) -> (r: Result<String, String>)
    ensures
        r is Ok <==> spec_get_text(*value, key@) is Some,
        match r {
            Ok(s) => spec_get_text(*value, key@) == Some(s@),
            Err(e) => e@ == if *value is Object {
                invalid_msg(key@)
            } else {
                missing_msg(key@)
            },
        },
{
    let is_obj = matches!(value, JsonValue::Object(_));
    match value.get(key) {
        Some(x) => match x.as_text() {
            Some(s) => Ok(s),
            None => Err(make_invalid_msg(key)),
        },
        None => {
            if is_obj {
                Err(make_invalid_msg(key))
            } else {
                Err(make_missing_msg(key))
            }
        },
    }
}

/// An optional string argument: present exactly when the member is a string.
pub fn parse_optional_string(value: &JsonValue, key: &str) -> (r: Option<String>)
    ensures
        r is Some <==> spec_get_text(*value, key@) is Some,
        r matches Some(s) ==> spec_get_text(*value, key@) == Some(s@),
{
    match value.get(key) {
        Some(x) => x.as_text(),
        None => None,
    }
}

/// An optional `u32` argument: present exactly when the member is a `u64`
/// that fits in `u32`.
pub fn parse_optional_u32(value: &JsonValue, key: &str) -> (r: Option<u32>)
    ensures
        r == spec_get_u32(*value, key@),
{
    match value.get(key) {
        Some(x) => match x.as_u64() {
            Some(n) => if n <= 0xFFFF_FFFFu64 {
                Some(n as u32)
            } else {
                None
            },
            None => None,
        },
        None => None,
    }
}

/// The texts of the string elements of `items`, in order; other elements
/// are passed over.
pub open spec fn texts_of(items: Seq<JsonValue>) -> Seq<Seq<char>>
    decreases items.len(),
{
    if items.len() == 0 {
        Seq::empty()
    } else {
        let rest = texts_of(items.drop_last());
        match items.last() {
            JsonValue::Text(s) => rest.push(s@),
            _ => rest,
        }
    }
}

/// An optional array-of-strings argument: present exactly when the member
/// is an array; non-string elements are dropped.
pub fn parse_optional_string_array(value: &JsonValue, key: &str) -> (r: Option<Vec<String>>)
    ensures
        r is Some <==> (spec_get(*value, key@) matches Some(a) && a is Array),
        r matches Some(v) ==> (spec_get(*value, key@) matches Some(a) && strs_view(v@) == texts_of(
            a->Array_0@,
        )),
{
    match value.get(key) {
        Some(x) => match x {
            JsonValue::Array(items) => {
                let ghost target = x;
                let mut out: Vec<String> = Vec::new();
                let mut i: usize = 0;
                proof {
                    assert(items@.take(0) =~= Seq::<JsonValue>::empty());
                    assert(strs_view(out@) =~= texts_of(items@.take(0)));
                }
                while i < items.len()
                    invariant
                        0 <= i <= items@.len(),
                        strs_view(out@) == texts_of(items@.take(i as int)),
                    decreases items@.len() - i,
                {
                    proof {
                        assert(items@.take(i + 1).drop_last() =~= items@.take(i as int));
                        assert(items@.take(i + 1).last() == items@[i as int]);
                    }
                    match items[i].as_text() {
                        Some(s) => {
                            out.push(s);
                            proof {
                                assert(strs_view(out@) =~= texts_of(items@.take(i + 1)));
                            }
                        },
                        None => {
                            proof {
                                assert(strs_view(out@) =~= texts_of(items@.take(i + 1)));
                            }
                        },
                    }
                    i += 1;
                }
                proof {
                    assert(items@.take(i as int) =~= items@);
                }
                Some(out)
            },
            _ => None,
        },
        None => None,
    }
}

/// A required array-of-strings argument; absent or non-array fails
/// ``missing `key` ``.
pub fn parse_string_array(value: &JsonValue, key: &str) -> (r: Result<Vec<String>, String>)
    ensures
        r is Ok <==> (spec_get(*value, key@) matches Some(a) && a is Array),
        match r {
            Ok(v) => (spec_get(*value, key@) matches Some(a) && strs_view(v@) == texts_of(
                a->Array_0@,
            )),
            Err(e) => e@ == missing_msg(key@),
        },
{
    match parse_optional_string_array(value, key) {
        Some(v) => Ok(v),
        None => Err(make_missing_msg(key)),
    }
}

/// The token offered by an `auth` request: the params string itself, or the
/// string under `token` of a params object.
pub open spec fn spec_auth_token(v: JsonValue) -> Option<Seq<char>> {
    match v {
        JsonValue::Text(s) => Some(s@),
        JsonValue::Object(fields) => match spec_lookup(fields@, "token"@) {
            Some(x) => spec_text(x),
            None => None,
        },
        _ => None,
    }
}

pub fn parse_auth_token(params: &JsonValue) -> (r: Option<String>)
    ensures
        r is Some <==> spec_auth_token(*params) is Some,
        r matches Some(s) ==> spec_auth_token(*params) == Some(s@),
{
    match params {
        JsonValue::Text(s) => Some(s.clone()),
        JsonValue::Object(_) => match params.get("token") {
            Some(x) => x.as_text(),
            None => None,
        },
        _ => None,
    }
}

} // verus!
