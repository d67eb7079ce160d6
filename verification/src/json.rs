//! A plain model of a JSON value, as the framework context of an annotation
//! carries it, with the lookups that the agent tools make in it.
use vstd::prelude::*;
use crate::text::str_eq;

verus! {

/// A JSON number, split as `serde_json` splits it: a non-negative integer, a
/// negative integer, or a float (held as its IEEE-754 bit pattern).
#[derive(Debug, Clone, Copy, PartialEq, Eq, Structural)]
pub enum JsonNumber {
    PosInt(u64),
    NegInt(i64),
    Float(u64),
}

/// One `key: value` member of a JSON object.
#[derive(Debug)]
pub struct JsonMember {
    pub key: String,
    pub value: Json,
}

/// A JSON value. An object keeps its members in order.
#[derive(Debug)]
pub enum Json {
    Null,
    Bool(bool),
    Number(JsonNumber),
    String(String),
    Array(Vec<Json>),
    Object(Vec<JsonMember>),
}

/// The mathematical value of a JSON value.
pub enum JsonValue {
    Null,
    Bool(bool),
    Number(JsonNumber),
    Str(Seq<char>),
    Array(Seq<JsonValue>),
    Object(Seq<(Seq<char>, JsonValue)>),
}

/// The mathematical value of `v`.
pub open spec fn json_view(v: Json) -> JsonValue
    decreases v,
{
    match v {
        Json::Null => JsonValue::Null,
        Json::Bool(b) => JsonValue::Bool(b),
        Json::Number(n) => JsonValue::Number(n),
        Json::String(s) => JsonValue::Str(s@),
        Json::Array(items) => JsonValue::Array(
            Seq::new(
                items@.len(),
                |i: int|
                    {
                        if 0 <= i < items@.len() {
                            proof {
                                assert(decreases_to!(v => items));
                                assert(decreases_to!(items => items@));
                                assert(decreases_to!(items@ => items@[i]));
                            }
                            json_view(items@[i])
                        } else {
                            JsonValue::Null
                        }
                    },
            ),
        ),
        Json::Object(members) => JsonValue::Object(
            Seq::new(
                members@.len(),
                |i: int|
                    {
                        if 0 <= i < members@.len() {
                            proof {
                                assert(decreases_to!(v => members));
                                assert(decreases_to!(members => members@));
                                assert(decreases_to!(members@ => members@[i]));
                                assert(decreases_to!(members@[i] => members@[i].value));
                            }
                            (members@[i].key@, json_view(members@[i].value))
                        } else {
                            (Seq::empty(), JsonValue::Null)
                        }
                    },
            ),
        ),
    }
}

impl View for Json {
    type V = JsonValue;

    open spec fn view(&self) -> JsonValue {
        json_view(*self)
    }
}

/// The value of the first member of `members` whose key is `key`.
pub open spec fn member_value(members: Seq<(Seq<char>, JsonValue)>, key: Seq<char>) -> Option<
    JsonValue,
>
    decreases members.len(),
{
    if members.len() == 0 {
        None
    } else if members[0].0 == key {
        Some(members[0].1)
    } else {
        member_value(members.drop_first(), key)
    }
}

/// What `Value::get(key)` gives: the member named `key` of an object, and
/// nothing for any other value.
pub open spec fn json_get(v: JsonValue, key: Seq<char>) -> Option<JsonValue> {
    match v {
        JsonValue::Object(members) => member_value(members, key),
        _ => None,
    }
}

/// What `Value::as_str` gives, applied to a lookup's result.
pub open spec fn json_as_str(v: Option<JsonValue>) -> Option<Seq<char>> {
    match v {
        Some(JsonValue::Str(s)) => Some(s),
        _ => None,
    }
}

/// What `Value::as_u64` gives, applied to a lookup's result: only a
/// non-negative integer has one.
pub open spec fn json_as_u64(v: Option<JsonValue>) -> Option<u64> {
    match v {
        Some(JsonValue::Number(JsonNumber::PosInt(n))) => Some(n),
        _ => None,
    }
}

/// Skipping members whose key differs does not change the lookup.
proof fn lemma_member_value_skip(members: Seq<(Seq<char>, JsonValue)>, key: Seq<char>, k: int)
    requires
        0 <= k <= members.len(),
        forall|j: int| 0 <= j < k ==> members[j].0 != key,
    ensures
        member_value(members, key) == member_value(members.skip(k), key),
    decreases k,
{
    if k > 0 {
        lemma_member_value_skip(members.drop_first(), key, k - 1);
        assert(members.drop_first().skip(k - 1) =~= members.skip(k));
    } else {
        assert(members.skip(0) =~= members);
    }
}

/// A copy of `m`, with the same key and value.
pub fn copy_member(m: &JsonMember) -> (out: JsonMember)
    ensures
        out.key@ == m.key@,
        out.value@ == m.value@,
    decreases m, 0int,
{
    JsonMember { key: m.key.clone(), value: copy_json(&m.value) }
}

/// A copy of `v`, with the same value.
pub fn copy_json(v: &Json) -> (out: Json)
    ensures
        out@ == v@,
    decreases v, 1int,
{
    match v {
        Json::Null => Json::Null,
        Json::Bool(b) => Json::Bool(*b),
        Json::Number(n) => Json::Number(*n),
        Json::String(s) => Json::String(s.clone()),
        Json::Array(items) => {
            let mut copy: Vec<Json> = Vec::new();
            let mut i: usize = 0;
            assert(decreases_to!(*v => *items));
            while i < items.len()
                invariant
                    decreases_to!(*v => *items),
                    i <= items@.len(),
                    copy@.len() == i,
                    forall|k: int| 0 <= k < i ==> copy@[k]@ == items@[k]@,
                decreases items@.len() - i,
            {
                assert(decreases_to!(*items => items@));
                assert(decreases_to!(items@ => items@[i as int]));
                copy.push(copy_json(&items[i]));
                i = i + 1;
            }
            let out = Json::Array(copy);
            assert(out@ == v@) by {
                if let JsonValue::Array(a) = out@ {
                    if let JsonValue::Array(b) = v@ {
                        assert(a =~= b);
                    }
                }
            }
            out
        },
        Json::Object(members) => {
            let mut copy: Vec<JsonMember> = Vec::new();
            let mut i: usize = 0;
            assert(decreases_to!(*v => *members));
            while i < members.len()
                invariant
                    decreases_to!(*v => *members),
                    i <= members@.len(),
                    copy@.len() == i,
                    forall|k: int|
                        0 <= k < i ==> copy@[k].key@ == members@[k].key@ && copy@[k].value@
                            == members@[k].value@,
                decreases members@.len() - i,
            {
                assert(decreases_to!(*members => members@));
                assert(decreases_to!(members@ => members@[i as int]));
                copy.push(copy_member(&members[i]));
                i = i + 1;
            }
            let out = Json::Object(copy);
            assert(out@ == v@) by {
                if let JsonValue::Object(a) = out@ {
                    if let JsonValue::Object(b) = v@ {
                        assert(a =~= b);
                    }
                }
            }
            out
        },
    }
}

impl Clone for Json {
    fn clone(&self) -> (out: Self)
        ensures
            out@ == self@,
    {
        copy_json(self)
    }
}

impl Json {
    /// The member named `key` of an object, as `Value::get` finds it.
    pub fn get(&self, key: &str) -> (found: Option<&Json>)
        ensures
            match json_get(self@, key@) {
                Some(m) => found matches Some(x) && x@ == m,
                None => found is None,
            },
    {
        match self {
            Json::Object(members) => {
                let ghost ms = match self@ {
                    JsonValue::Object(ms) => ms,
                    _ => Seq::empty(),
                };
                assert(ms.len() == members@.len());
                let mut i: usize = 0;
                while i < members.len()
                    invariant
                        i <= members@.len(),
                        ms.len() == members@.len(),
                        forall|k: int|
                            0 <= k < ms.len() ==> #[trigger] ms[k] == (
                                members@[k].key@,
                                members@[k].value@,
                            ),
                        forall|j: int| 0 <= j < i ==> ms[j].0 != key@,
                        json_get(self@, key@) == member_value(ms, key@),
                    decreases members@.len() - i,
                {
                    if str_eq(members[i].key.as_str(), key) {
                        proof {
                            lemma_member_value_skip(ms, key@, i as int);
                            assert(ms.skip(i as int)[0] == ms[i as int]);
                        }
                        return Some(&members[i].value);
                    }
                    i = i + 1;
                }
                proof {
                    lemma_member_value_skip(ms, key@, i as int);
                }
                None
            },
            _ => None,
        }
    }
}

} // verus!
