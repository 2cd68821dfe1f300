use crate::text::same_text;
use vstd::prelude::*;

verus! {

/// A JSON document as a tree of plain values.
///
/// A number is kept as its decimal text. The members of an object are
/// kept in the order in which the parser hands them out.
#[derive(Debug, PartialEq, Eq)]
pub enum Json {
    Null,
    Bool(bool),
    Number(String),
    Text(String),
    Array(Vec<Json>),
    Object(Vec<Member>),
}

/// One member of a JSON object.
#[derive(Debug, PartialEq, Eq)]
pub struct Member {
    pub key: String,
    pub value: Json,
}

/// The value of the first member of `members` whose key is `key`.
pub open spec fn lookup(members: Seq<Member>, key: Seq<char>) -> Option<Json>
    decreases members.len(),
{
    if members.len() == 0 {
        None
    } else {
        match lookup(members.drop_last(), key) {
            Some(v) => Some(v),
            None => if members.last().key@ == key {
                Some(members.last().value)
            } else {
                None
            },
        }
    }
}

/// A member found in a prefix of `members` is the member found in all of them.
proof fn lemma_lookup_prefix(members: Seq<Member>, key: Seq<char>, n: int)
    requires
        0 <= n <= members.len(),
        lookup(members.take(n), key) is Some,
    ensures
        lookup(members, key) == lookup(members.take(n), key),
    decreases members.len() - n,
{
    if n < members.len() {
        assert(members.take(n + 1).drop_last() == members.take(n));
        lemma_lookup_prefix(members, key, n + 1);
    } else {
        assert(members.take(n) == members);
    }
}

/// The value of the first member of `members` whose key is `key`.
pub fn find_member<'a>(members: &'a Vec<Member>, key: &str) -> (r: Option<&'a Json>)
    ensures
        match r {
            Some(v) => lookup(members@, key@) == Some(*v),
            None => lookup(members@, key@) is None,
        },
{
    let mut i: usize = 0;
    assert(members@.take(0).len() == 0);
    while i < members.len()
        invariant
            i <= members.len(),
            lookup(members@.take(i as int), key@) is None,
        decreases members.len() - i,
    {
        assert(members@.take(i + 1).drop_last() == members@.take(i as int));
        assert(members@.take(i + 1).last() == members@[i as int]);
        if same_text(members[i].key.as_str(), key) {
            proof {
                lemma_lookup_prefix(members@, key@, i + 1);
            }
            return Some(&members[i].value);
        }
        i += 1;
    }
    assert(members@.take(i as int) == members@);
    None
}

impl Json {
    /// The text of a string value.
    pub open spec fn text(self) -> Option<Seq<char>> {
        match self {
            Json::Text(s) => Some(s@),
            _ => None,
        }
    }

    /// The elements of an array.
    pub open spec fn items(self) -> Option<Seq<Json>> {
        match self {
            Json::Array(v) => Some(v@),
            _ => None,
        }
    }

    /// The members of an object.
    pub open spec fn members(self) -> Option<Seq<Member>> {
        match self {
            Json::Object(m) => Some(m@),
            _ => None,
        }
    }

    /// The value under `key` of an object; nothing for any other value.
    pub open spec fn member(self, key: Seq<char>) -> Option<Json> {
        match self {
            Json::Object(m) => lookup(m@, key),
            _ => None,
        }
    }

    /// The text under `key` of an object, if that member is a string.
    pub open spec fn member_text(self, key: Seq<char>) -> Option<Seq<char>> {
        match self.member(key) {
            Some(v) => v.text(),
            None => None,
        }
    }

    /// The text of a string value.
    pub fn as_text(&self) -> (r: Option<&String>)
        ensures
            match r {
                Some(s) => self.text() == Some(s@),
                None => self.text() is None,
            },
    {
        match self {
            Json::Text(s) => Some(s),
            _ => None,
        }
    }

    /// The elements of an array.
    pub fn as_array(&self) -> (r: Option<&Vec<Json>>)
        ensures
            match r {
                Some(v) => self.items() == Some(v@),
                None => self.items() is None,
            },
    {
        match self {
            Json::Array(v) => Some(v),
            _ => None,
        }
    }

    /// The members of an object.
    pub fn as_object(&self) -> (r: Option<&Vec<Member>>)
        ensures
            match r {
                Some(m) => self.members() == Some(m@),
                None => self.members() is None,
            },
    {
        match self {
            Json::Object(m) => Some(m),
            _ => None,
        }
    }

    /// The value under `key` of an object.
    pub fn get(&self, key: &str) -> (r: Option<&Json>)
        ensures
            match r {
                Some(v) => self.member(key@) == Some(*v),
                None => self.member(key@) is None,
            },
    {
        match self {
            Json::Object(m) => find_member(m, key),
            _ => None,
        }
    }

    /// The text under `key` of an object, if that member is a string.
    pub fn get_text(&self, key: &str) -> (r: Option<&String>)
        ensures
            match r {
                Some(s) => self.member_text(key@) == Some(s@),
                None => self.member_text(key@) is None,
            },
    {
        match self.get(key) {
            Some(v) => v.as_text(),
            None => None,
        }
    }
}

/// `serde_json::Value`, the parser's own document type: carried, never read.
#[verifier::external_type_specification]
#[verifier::external_body]
pub struct ExValue(serde_json::Value);

/// `serde_json::Error`, what the parser reports of a text that is no JSON.
#[verifier::external_type_specification]
#[verifier::external_body]
pub struct ExJsonError(serde_json::Error);

/// The tree of the JSON document that `text` holds, as `serde_json::from_str`
/// reads it; nothing where `text` is not one JSON document.
pub uninterp spec fn json_document(text: Seq<char>) -> Option<Json>;

/// The tree that a parsed value holds.
pub uninterp spec fn value_tree(v: serde_json::Value) -> Json;

/// The compact JSON text that `serde_json` writes for a value holding `tree`.
pub uninterp spec fn tree_text(tree: Json) -> Seq<char>;

/// Calls `serde_json::from_str` for a `serde_json::Value`. The outcome is a
/// function of the text alone: the same text always parses to the same tree,
/// or always fails.
#[verifier::external_body]
pub(crate) fn parse_value(text: &str) -> (r: Result<serde_json::Value, serde_json::Error>)
    ensures
        match r {
            Ok(v) => json_document(text@) == Some(value_tree(v)),
            Err(_) => json_document(text@) is None,
        },
{
    serde_json::from_str::<serde_json::Value>(text)
}

/// Copies a `serde_json::Value` into a `Json`, variant by variant: a number
/// as the text of `Number::to_string`, the members of an object in the order
/// of `Map::iter`.
#[verifier::external_body]
pub(crate) fn tree_of_value(v: &serde_json::Value) -> (r: Json)
    ensures
        r == value_tree(*v),
{
    match v {
        serde_json::Value::Null => Json::Null,
        serde_json::Value::Bool(b) => Json::Bool(*b),
        serde_json::Value::Number(n) => Json::Number(n.to_string()),
        serde_json::Value::String(s) => Json::Text(s.clone()),
        serde_json::Value::Array(a) => Json::Array(a.iter().map(tree_of_value).collect()),
        serde_json::Value::Object(o) => Json::Object(
            o.iter().map(|(k, x)| Member { key: k.clone(), value: tree_of_value(x) }).collect(),
        ),
    }
}

/// Calls `serde_json::Value::get` with a string key: the member of an object
/// under that key, nothing for a missing key or a value that is no object.
#[verifier::external_body]
pub(crate) fn value_member<'a>(v: &'a serde_json::Value, key: &str) -> (r: Option<
    &'a serde_json::Value,
>)
    ensures
        match r {
            Some(m) => value_tree(*v).member(key@) == Some(value_tree(*m)),
            None => value_tree(*v).member(key@) is None,
        },
{
    v.get(key)
}

/// Calls `to_string` on a `serde_json::Value`: its compact JSON text, which
/// is a function of the tree that the value holds.
#[verifier::external_body]
pub(crate) fn value_text(v: &serde_json::Value) -> (r: String)
    ensures
        r@ == tree_text(value_tree(*v)),
{
    v.to_string()
}

/// Reads `text` as one JSON document.
pub fn parse_json(text: &str) -> (r: Option<Json>)
    ensures
        r == json_document(text@),
{
    match parse_value(text) {
        Ok(v) => Some(tree_of_value(&v)),
        Err(_) => None,
    }
}

} // verus!
