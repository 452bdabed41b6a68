//! A JSON document as a tree of plain values.

use vstd::prelude::*;
use crate::outside::{document_tree, read_document, tree_of_value};
use crate::types::MalformedConfig;

verus! {

/// A JSON value.
#[derive(Debug, PartialEq, Eq)]
pub enum Json {
    /// `null`.
    Null,
    /// `true` or `false`.
    Bool(bool),
    /// A number, in decimal text: an integer digit for digit as the
    /// document writes it.
    Number(String),
    /// A string.
    Text(String),
    /// An array, in document order.
    Array(Vec<Json>),
    /// An object: its members, each a name and a value.
    Object(Vec<(String, Json)>),
}

/// The tree that `text` writes, where `text` is strict JSON.
pub open spec fn parsed_document(text: Seq<char>) -> Option<Json> {
    document_tree(text)
}

/// Reads `text` as strict JSON.
pub fn parse_document(text: &str) -> (r: Result<Json, MalformedConfig>)
    ensures
        r == match parsed_document(text@) {
            Some(tree) => Ok::<Json, MalformedConfig>(tree),
            None => Err(MalformedConfig::NotStrictJson),
        },
{
    match read_document(text) {
        Ok(value) => Ok(tree_of_value(&value)),
        Err(_) => Err(MalformedConfig::NotStrictJson),
    }
}

/// The value of the first member of `members` from position `from` on
/// whose name is `name`.
pub open spec fn member_from(members: Seq<(String, Json)>, name: Seq<char>, from: int) -> Option<
    Json,
>
    decreases members.len() - from,
{
    if from < 0 || from >= members.len() {
        None
    } else if members[from].0@ == name {
        Some(members[from].1)
    } else {
        member_from(members, name, from + 1)
    }
}

/// The value of the first member of `members` whose name is `name`.
pub open spec fn member(members: Seq<(String, Json)>, name: Seq<char>) -> Option<Json> {
    member_from(members, name, 0)
}

/// The value of the first member of `members` whose name is `name`.
pub fn find_member<'a>(members: &'a Vec<(String, Json)>, name: &str) -> (r: Option<&'a Json>)
    ensures
        r is Some == member(members@, name@) is Some,
        r matches Some(value) ==> member(members@, name@) == Some(*value),
{
    let wanted = name.to_owned();
    let mut i: usize = 0;
    while i < members.len()
        invariant
            i <= members.len(),
            wanted@ == name@,
            member(members@, name@) == member_from(members@, name@, i as int),
        decreases members.len() - i,
    {
        if members[i].0 == wanted {
            return Some(&members[i].1);
        }
        i += 1;
    }
    None
}

} // verus!
