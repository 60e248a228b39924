//! A first-order model of the JSON values the protocol exchanges. Numbers
//! outside `u64` and any other shape the daemon never reads collapse to
//! `Other`, which no accessor matches.

use vstd::prelude::*;

use crate::text::str_eq;

verus! {

#[derive(Debug)]
pub enum JsonValue {
    Null,
    Bool(bool),
    Uint(u64),
    Text(String),
    Array(Vec<JsonValue>),
    Object(Vec<(String, JsonValue)>),
    Other,
}

/// First field of `fields` whose key reads `key`, if any.
pub open spec fn spec_lookup(fields: Seq<(String, JsonValue)>, key: Seq<char>) -> Option<
    JsonValue,
>
    decreases fields.len(),
{
    if fields.len() == 0 {
        None
    } else if fields[0].0@ == key {
        Some(fields[0].1)
    } else {
        spec_lookup(fields.skip(1), key)
    }
}

/// A field whose key differs from every earlier key is what lookup finds
/// under that key.
pub proof fn lemma_lookup_at(f: Seq<(String, JsonValue)>, i: int)
    requires
        0 <= i < f.len(),
        forall|j: int| 0 <= j < i ==> f[j].0@ != f[i].0@,
    ensures
        spec_lookup(f, f[i].0@) == Some(f[i].1),
    decreases i,
{
    if i == 0 {
    } else {
        assert(f[0].0@ != f[i].0@);
        assert forall|j: int| 0 <= j < i - 1 implies (#[trigger] f.skip(1)[j]).0@ != f.skip(
            1,
        )[i - 1].0@ by {
            assert(f.skip(1)[j] == f[j + 1]);
            assert(f.skip(1)[i - 1] == f[i]);
        }
        lemma_lookup_at(f.skip(1), i - 1);
        assert(f.skip(1)[i - 1] == f[i]);
    }
}

/// Member lookup: the value under `key` when `v` is an object holding one.
pub open spec fn spec_get(v: JsonValue, key: Seq<char>) -> Option<JsonValue> {
    match v {
        JsonValue::Object(fields) => spec_lookup(fields@, key),
        _ => None,
    }
}

/// The text of a string value.
pub open spec fn spec_text(v: JsonValue) -> Option<Seq<char>> {
    match v {
        JsonValue::Text(s) => Some(s@),
        _ => None,
    }
}

/// The number of a `u64` value.
pub open spec fn spec_uint(v: JsonValue) -> Option<u64> {
    match v {
        JsonValue::Uint(n) => Some(n),
        _ => None,
    }
}

impl JsonValue {
    /// Borrow of the member under `key`, resolved as `spec_get`.
    pub fn get<'a>(&'a self, key: &str) -> (r: Option<&'a JsonValue>)
        ensures
            match r {
                Some(x) => spec_get(*self, key@) == Some(*x),
                None => spec_get(*self, key@) is None,
            },
    {
        match self {
            JsonValue::Object(fields) => {
                let mut i: usize = 0;
                proof {
                    assert(fields@.skip(0) =~= fields@);
                }
                while i < fields.len()
                    invariant
                        *self is Object,
                        self->Object_0 == *fields,
                        0 <= i <= fields@.len(),
                        spec_lookup(fields@, key@) == spec_lookup(fields@.skip(i as int), key@),
                    decreases fields@.len() - i,
                {
                    proof {
                        assert(fields@.skip(i as int)[0] == fields@[i as int]);
                        assert(fields@.skip(i as int).skip(1) =~= fields@.skip(i + 1));
                    }
                    if str_eq(fields[i].0.as_str(), key) {
                        proof {
                            assert(spec_lookup(fields@.skip(i as int), key@) == Some(
                                fields@[i as int].1,
                            ));
                            assert(spec_lookup(fields@, key@) == Some(fields@[i as int].1));
                            assert(*self is Object);
                            assert(self->Object_0 == *fields);
                            assert(spec_get(*self, key@) == Some(fields@[i as int].1));
                        }
                        return Some(&fields[i].1);
                    }
                    i += 1;
                }
                proof {
                    assert(fields@.skip(i as int) =~= Seq::<(String, JsonValue)>::empty());
                }
                None
            },
            _ => None,
        }
    }

    /// The number held by a `u64` member, as `spec_uint`.
    pub fn as_u64(&self) -> (r: Option<u64>)
        ensures
            r == spec_uint(*self),
    {
        match self {
            JsonValue::Uint(n) => Some(*n),
            _ => None,
        }
    }

    /// A copy of the text held by a string value.
    pub fn as_text(&self) -> (r: Option<String>)
        ensures
            match r {
                Some(s) => spec_text(*self) == Some(s@),
                None => spec_text(*self) is None,
            },
    {
        match self {
            JsonValue::Text(s) => Some(s.clone()),
            _ => None,
        }
    }
}

/// Removes and returns the first field under `key`; later fields and fields
/// under other keys keep their relative order.
pub fn take_field(fields: &mut Vec<(String, JsonValue)>, key: &str) -> (r: Option<JsonValue>)
    ensures
        match r {
            Some(v) => {
                &&& spec_lookup(old(fields)@, key@) == Some(v)
                &&& exists|i: int|
                    {
                        &&& 0 <= i < old(fields)@.len()
                        &&& old(fields)@[i].0@ == key@
                        &&& old(fields)@[i].1 == v
                        &&& final(fields)@ == old(fields)@.remove(i)
                        &&& forall|k: int| 0 <= k < i ==> old(fields)@[k].0@ != key@
                    }
            },
            None => {
                &&& spec_lookup(old(fields)@, key@) is None
                &&& final(fields)@ == old(fields)@
            },
        },
{
    let ghost orig = fields@;
    let mut i: usize = 0;
    proof {
        assert(orig.skip(0) =~= orig);
    }
    while i < fields.len()
        invariant
            fields@ == orig,
            orig == old(fields)@,
            0 <= i <= orig.len(),
            forall|k: int| 0 <= k < i ==> orig[k].0@ != key@,
            spec_lookup(orig, key@) == spec_lookup(orig.skip(i as int), key@),
        decreases orig.len() - i,
    {
        proof {
            assert(orig.skip(i as int)[0] == orig[i as int]);
            assert(orig.skip(i as int).skip(1) =~= orig.skip(i + 1));
        }
        if str_eq(fields[i].0.as_str(), key) {
            proof {
                assert(spec_lookup(orig.skip(i as int), key@) == Some(orig[i as int].1));
            }
            let pair = fields.remove(i);
            proof {
                assert(fields@ == orig.remove(i as int));
            }
            return Some(pair.1);
        }
        i += 1;
    }
    proof {
        assert(orig.skip(i as int) =~= Seq::<(String, JsonValue)>::empty());
    }
    None
}

} // verus!
