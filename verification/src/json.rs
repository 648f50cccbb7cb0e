//! The tree of values that a JSON document holds.

use vstd::prelude::*;

verus! {

/// A JSON number as `serde_json` holds it.  This crate only ever keeps
/// floating point numbers in this form, and never looks inside one.
#[verifier::external_type_specification]
#[verifier::external_body]
pub struct ExJsonNumber(serde_json::Number);

/// A node of a JSON document.
///
/// An object is kept as the list of its members in the order in which they
/// were written.  Where a key occurs more than once, the last member with
/// that key is the one that counts.
#[derive(Debug, PartialEq)]
pub enum JsonValue {
    Null,
    Bool(bool),
    /// An integer that fits `i64`.
    Int(i64),
    /// A non-negative integer.
    UInt(u64),
    /// A floating point number, kept as `serde_json` holds it.
    Float(serde_json::Number),
    String(String),
    Array(Vec<JsonValue>),
    Object(Vec<(String, JsonValue)>),
}

/// The mathematical value of a [`JsonValue`]: integers by their value, and
/// objects as maps from key to member.
pub enum JsonTree {
    Null,
    Bool(bool),
    Integer(int),
    Float(serde_json::Number),
    String(Seq<char>),
    Array(Seq<JsonTree>),
    Object(Map<Seq<char>, JsonTree>),
}

/// The map that a list of members stands for: each member is written into
/// the map in turn, so a later one replaces an earlier one of the same key.
pub open spec fn members_map(members: Seq<(Seq<char>, JsonTree)>) -> Map<Seq<char>, JsonTree>
    decreases members.len(),
{
    if members.len() == 0 {
        Map::empty()
    } else {
        members_map(members.drop_last()).insert(members.last().0, members.last().1)
    }
}

/// The keys and trees of an object's members, in order; empty for any other
/// node.
pub open spec fn members_of(v: JsonValue) -> Seq<(Seq<char>, JsonTree)>
    decreases v, 0int,
{
    match v {
        JsonValue::Object(members) => Seq::new(
            members@.len(),
            |i: int|
                if 0 <= i < members@.len() {
                    (members@[i].0@, tree_of(members@[i].1))
                } else {
                    (Seq::empty(), JsonTree::Null)
                },
        ),
        _ => Seq::empty(),
    }
}

/// The tree that a node stands for.
pub open spec fn tree_of(v: JsonValue) -> JsonTree
    decreases v, 1int,
{
    match v {
        JsonValue::Null => JsonTree::Null,
        JsonValue::Bool(b) => JsonTree::Bool(b),
        JsonValue::Int(i) => JsonTree::Integer(i as int),
        JsonValue::UInt(u) => JsonTree::Integer(u as int),
        JsonValue::Float(n) => JsonTree::Float(n),
        JsonValue::String(s) => JsonTree::String(s@),
        JsonValue::Array(items) => JsonTree::Array(
            Seq::new(
                items@.len(),
                |i: int|
                    if 0 <= i < items@.len() {
                        tree_of(items@[i])
                    } else {
                        JsonTree::Null
                    },
            ),
        ),
        JsonValue::Object(members) => JsonTree::Object(members_map(members_of(v))),
    }
}

impl View for JsonValue {
    type V = JsonTree;

    open spec fn view(&self) -> JsonTree {
        tree_of(*self)
    }
}

/// The trees of an array's elements, in order.
pub open spec fn array_view(items: Seq<JsonValue>) -> Seq<JsonTree> {
    Seq::new(items.len(), |i: int| items[i]@)
}

/// The keys and trees of an object's members, in order.
pub open spec fn members_view(members: Seq<(String, JsonValue)>) -> Seq<(Seq<char>, JsonTree)> {
    Seq::new(members.len(), |i: int| (members[i].0@, members[i].1@))
}

/// An array node's view is the view of its elements.
pub proof fn lemma_array_view(v: JsonValue)
    requires
        v is Array,
    ensures
        v@ == JsonTree::Array(array_view(v->Array_0@)),
{
    assert(v@->Array_0 =~= array_view(v->Array_0@));
}

/// An object node's view is the map of its members.
pub proof fn lemma_object_view(v: JsonValue)
    requires
        v is Object,
    ensures
        v@ == JsonTree::Object(members_map(members_view(v->Object_0@))),
{
    assert(members_of(v) =~= members_view(v->Object_0@));
}

} // verus!
