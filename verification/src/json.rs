//! A plain model of the JSON values that the transfer logic reads.
//!
//! Each value carries its compact JSON rendering (`text`), which is what the
//! logic reports as an amount; the structure (`node`) is what it navigates.

use vstd::prelude::*;

verus! {

/// One JSON value: its structure and its compact rendering.
pub struct JsonValue {
    pub node: JsonNode,
    pub text: String,
}

/// The structure of a JSON value. Numbers are only ever rendered, so they
/// carry no payload of their own beyond the value's `text`.
pub enum JsonNode {
    Null,
    Bool(bool),
    Number,
    Str(String),
    Array(Vec<JsonValue>),
    Object(Vec<JsonMember>),
}

/// One `"key": value` pair of a JSON object.
pub struct JsonMember {
    pub key: String,
    pub value: JsonValue,
}

/// The value of the first member named `key`, if any.
pub open spec fn member_value(members: Seq<JsonMember>, key: Seq<char>) -> Option<JsonValue>
    decreases members.len(),
{
    if members.len() == 0 {
        None
    } else if members[0].key@ == key {
        Some(members[0].value)
    } else {
        member_value(members.drop_first(), key)
    }
}

/// `v.get(key)` chained through an optional value: the member `key` of an
/// object, and nothing for any other value or for no value.
pub open spec fn field(v: Option<JsonValue>, key: Seq<char>) -> Option<JsonValue> {
    match v {
        Some(value) => match value.node {
            JsonNode::Object(members) => member_value(members@, key),
            _ => None,
        },
        None => None,
    }
}

/// The text of a JSON string, and nothing for any other value.
pub open spec fn str_of(v: Option<JsonValue>) -> Option<Seq<char>> {
    match v {
        Some(value) => match value.node {
            JsonNode::Str(s) => Some(s@),
            _ => None,
        },
        None => None,
    }
}

/// The elements of a JSON array, and nothing for any other value.
pub open spec fn array_of(v: Option<JsonValue>) -> Option<Seq<JsonValue>> {
    match v {
        Some(value) => match value.node {
            JsonNode::Array(items) => Some(items@),
            _ => None,
        },
        None => None,
    }
}

/// An optional reference read as an optional value.
pub open spec fn deref_opt(r: Option<&JsonValue>) -> Option<JsonValue> {
    match r {
        Some(v) => Some(*v),
        None => None,
    }
}

proof fn lemma_member_value_skip(members: Seq<JsonMember>, key: Seq<char>, i: int)
    requires
        0 <= i < members.len(),
        members[i].key@ != key,
    ensures
        member_value(members.subrange(i, members.len() as int), key)
            == member_value(members.subrange(i + 1, members.len() as int), key),
{
    let rest = members.subrange(i, members.len() as int);
    assert(rest[0] == members[i]);
    assert(rest.drop_first() =~= members.subrange(i + 1, members.len() as int));
}

proof fn lemma_member_value_hit(members: Seq<JsonMember>, key: Seq<char>, i: int)
    requires
        0 <= i < members.len(),
        members[i].key@ == key,
    ensures
        member_value(members.subrange(i, members.len() as int), key) == Some(members[i].value),
{
    let rest = members.subrange(i, members.len() as int);
    assert(rest[0] == members[i]);
}

impl JsonValue {
    /// The member `key` of this value when it is an object.
    pub fn get(&self, key: &String) -> (r: Option<&JsonValue>)
        ensures
            deref_opt(r) == field(Some(*self), key@),
    {
        match &self.node {
            JsonNode::Object(members) => {
                let n = members.len();
                let mut i: usize = 0;
                assert(members@.subrange(0, n as int) =~= members@);
                while i < n
                    invariant
                        n == members@.len(),
                        i <= n,
                        field(Some(*self), key@) == member_value(members@, key@),
                        member_value(members@, key@) == member_value(
                            members@.subrange(i as int, n as int),
                            key@,
                        ),
                    decreases n - i,
                {
                    if members[i].key == *key {
                        proof {
                            lemma_member_value_hit(members@, key@, i as int);
                        }
                        return Some(&members[i].value);
                    }
                    proof {
                        lemma_member_value_skip(members@, key@, i as int);
                    }
                    i = i + 1;
                }
                assert(members@.subrange(n as int, n as int).len() == 0);
                None
            },
            _ => None,
        }
    }

    /// The text of this value when it is a JSON string.
    pub fn as_str(&self) -> (r: Option<&String>)
        ensures
            match r {
                Some(s) => str_of(Some(*self)) == Some(s@),
                None => str_of(Some(*self)) is None,
            },
    {
        match &self.node {
            JsonNode::Str(s) => Some(s),
            _ => None,
        }
    }

    /// The elements of this value when it is a JSON array.
    pub fn as_array(&self) -> (r: Option<&Vec<JsonValue>>)
        ensures
            match r {
                Some(items) => array_of(Some(*self)) == Some(items@),
                None => array_of(Some(*self)) is None,
            },
    {
        match &self.node {
            JsonNode::Array(items) => Some(items),
            _ => None,
        }
    }

    /// Whether this value is JSON `null`.
    pub fn is_null(&self) -> (b: bool)
        ensures
            b == (self.node is Null),
    {
        match &self.node {
            JsonNode::Null => true,
            _ => false,
        }
    }
}

/// `get(key)` on an optional value.
pub fn field_of<'a>(v: Option<&'a JsonValue>, key: &String) -> (r: Option<&'a JsonValue>)
    ensures
        deref_opt(r) == field(deref_opt(v), key@),
{
    match v {
        Some(value) => value.get(key),
        None => None,
    }
}

/// The text of an optional value that is a JSON string.
pub fn str_of_opt<'a>(v: Option<&'a JsonValue>) -> (r: Option<&'a String>)
    ensures
        match r {
            Some(s) => str_of(deref_opt(v)) == Some(s@),
            None => str_of(deref_opt(v)) is None,
        },
{
    match v {
        Some(value) => value.as_str(),
        None => None,
    }
}

/// The elements of an optional value that is a JSON array.
pub fn array_of_opt<'a>(v: Option<&'a JsonValue>) -> (r: Option<&'a Vec<JsonValue>>)
    ensures
        match r {
            Some(items) => array_of(deref_opt(v)) == Some(items@),
            None => array_of(deref_opt(v)) is None,
        },
{
    match v {
        Some(value) => value.as_array(),
        None => None,
    }
}

} // verus!
