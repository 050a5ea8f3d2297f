//! JSON documents as `serde_json` reads them.
//!
//! A document stays a `serde_json::Value`. The contracts speak of the tree
//! that such a value holds, and every function in this file is believed, not
//! proved: each one states what `serde_json` documents of one of its own.

use vstd::prelude::*;

verus! {

/// The content of a JSON document.
pub enum JsonTree {
    Null,
    Bool(bool),
    /// A number that is whole and lies between zero and `u64::MAX`.
    Unsigned(u64),
    /// Any other number: a negative one, a fraction, or one too large.
    OtherNumber,
    Text(Seq<char>),
    Array(Seq<JsonTree>),
    Object(Map<Seq<char>, JsonTree>),
}

impl JsonTree {
    /// The member of an object under a name, where there is one.
    pub open spec fn member(self, name: Seq<char>) -> Option<JsonTree> {
        match self {
            JsonTree::Object(members) if members.contains_key(name) => Some(members[name]),
            _ => None,
        }
    }

    /// The value of a whole number from zero to `u64::MAX`.
    pub open spec fn unsigned(self) -> Option<u64> {
        match self {
            JsonTree::Unsigned(n) => Some(n),
            _ => None,
        }
    }

    /// The elements of an array, in order.
    pub open spec fn items(self) -> Option<Seq<JsonTree>> {
        match self {
            JsonTree::Array(items) => Some(items),
            _ => None,
        }
    }
}

/// `serde_json::Value`, a JSON document in memory. Nothing inside it is
/// visible here: it is read through the functions below.
#[verifier::external_type_specification]
#[verifier::external_body]
pub struct ExJsonValue(serde_json::Value);

/// `serde_json::Error`, the reason why a text was refused. It is only ever
/// passed on.
#[verifier::external_type_specification]
#[verifier::external_body]
pub struct ExJsonError(serde_json::Error);

/// The tree that a `serde_json::Value` holds.
pub uninterp spec fn json_tree(value: serde_json::Value) -> JsonTree;

/// The tree that `serde_json::from_str` reads from a text, or nothing where
/// it refuses the text.
pub uninterp spec fn json_document(text: Seq<char>) -> Option<JsonTree>;

/// `serde_json::from_str`, reading a `Value`. The result depends on the text
/// alone: the value read holds `json_document` of the text, and the call
/// fails exactly where `json_document` is nothing.
#[verifier::external_body]
pub(crate) fn parse_value(text: &str) -> (r: Result<serde_json::Value, serde_json::Error>)
    ensures
        match r {
            Ok(value) => json_document(text@) == Some(json_tree(value)),
            Err(_) => json_document(text@) is None,
        },
{
    serde_json::from_str::<serde_json::Value>(text)
}

/// `Value::get` with a string index: the member of that name where the value
/// is an object that has one, and nothing for any other value.
#[verifier::external_body]
pub(crate) fn value_member<'a>(value: &'a serde_json::Value, name: &str) -> (r: Option<
    &'a serde_json::Value,
>)
    ensures
        match r {
            Some(member) => json_tree(*value).member(name@) == Some(json_tree(*member)),
            None => json_tree(*value).member(name@) is None,
        },
{
    value.get(name)
}

/// `Value::as_u64`: the number where the value is a whole number from zero to
/// `u64::MAX`, and nothing for any other value.
#[verifier::external_body]
pub(crate) fn value_unsigned(value: &serde_json::Value) -> (r: Option<u64>)
    ensures
        r == json_tree(*value).unsigned(),
{
    value.as_u64()
}

/// `Value::as_array`: the elements where the value is an array, in order, and
/// nothing for any other value.
#[verifier::external_body]
pub(crate) fn value_items<'a>(value: &'a serde_json::Value) -> (r: Option<
    &'a Vec<serde_json::Value>,
>)
    ensures
        match r {
            Some(items) => json_tree(*value).items() == Some(
                Seq::new(items@.len(), |i: int| json_tree(items@[i])),
            ),
            None => json_tree(*value).items() is None,
        },
{
    value.as_array()
}

} // verus!
