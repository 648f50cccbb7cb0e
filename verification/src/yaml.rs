//! The tree of values that a YAML document holds.

use vstd::prelude::*;

verus! {

/// A YAML number as `serde_yaml` holds it.  This crate only ever keeps
/// floating point numbers in this form, and never looks inside one.
#[verifier::external_type_specification]
#[verifier::external_body]
pub struct ExYamlNumber(serde_yaml::Number);

/// The elements of a YAML sequence, in document order.
pub type Sequence = Vec<YamlValue>;

/// The entries of a YAML mapping, in document order.
pub type Mapping = Vec<(YamlValue, YamlValue)>;

/// A node of a YAML document.
#[derive(Debug, PartialEq)]
pub enum YamlValue {
    Null,
    Bool(bool),
    /// An integer that fits `i64`.
    Int(i64),
    /// A non-negative integer; the parser uses it above `i64::MAX` only.
    UInt(u64),
    /// A floating point number, kept as `serde_yaml` holds it.
    Float(serde_yaml::Number),
    String(String),
    Sequence(Sequence),
    Mapping(Mapping),
}

/// The mathematical value of a [`YamlValue`].
pub enum YamlTree {
    Null,
    Bool(bool),
    Int(i64),
    UInt(u64),
    Float(serde_yaml::Number),
    String(Seq<char>),
    Sequence(Seq<YamlTree>),
    Mapping(Seq<(YamlTree, YamlTree)>),
}

/// The tree that a node stands for.
pub open spec fn tree_of(v: YamlValue) -> YamlTree
    decreases v,
{
    match v {
        YamlValue::Null => YamlTree::Null,
        YamlValue::Bool(b) => YamlTree::Bool(b),
        YamlValue::Int(i) => YamlTree::Int(i),
        YamlValue::UInt(u) => YamlTree::UInt(u),
        YamlValue::Float(n) => YamlTree::Float(n),
        YamlValue::String(s) => YamlTree::String(s@),
        YamlValue::Sequence(items) => YamlTree::Sequence(
            Seq::new(
                items@.len(),
                |i: int|
                    if 0 <= i < items@.len() {
                        tree_of(items@[i])
                    } else {
                        YamlTree::Null
                    },
            ),
        ),
        YamlValue::Mapping(entries) => YamlTree::Mapping(
            Seq::new(
                entries@.len(),
                |i: int|
                    if 0 <= i < entries@.len() {
                        (tree_of(entries@[i].0), tree_of(entries@[i].1))
                    } else {
                        (YamlTree::Null, YamlTree::Null)
                    },
            ),
        ),
    }
}

impl View for YamlValue {
    type V = YamlTree;

    open spec fn view(&self) -> YamlTree {
        tree_of(*self)
    }
}

/// The trees of a sequence's elements, in order.
pub open spec fn sequence_view(items: Seq<YamlValue>) -> Seq<YamlTree> {
    Seq::new(items.len(), |i: int| items[i]@)
}

/// The trees of a mapping's entries, in order.
pub open spec fn mapping_view(entries: Seq<(YamlValue, YamlValue)>) -> Seq<(YamlTree, YamlTree)> {
    Seq::new(entries.len(), |i: int| (entries[i].0@, entries[i].1@))
}

/// A sequence node's view is the view of its elements.
pub proof fn lemma_sequence_view(v: YamlValue)
    requires
        v is Sequence,
    ensures
        v@ == YamlTree::Sequence(sequence_view(v->Sequence_0@)),
{
    assert(v@->Sequence_0 =~= sequence_view(v->Sequence_0@));
}

/// A mapping node's view is the view of its entries.
pub proof fn lemma_mapping_view(v: YamlValue)
    requires
        v is Mapping,
    ensures
        v@ == YamlTree::Mapping(mapping_view(v->Mapping_0@)),
{
    assert(v@->Mapping_0 =~= mapping_view(v->Mapping_0@));
}

impl YamlTree {
    /// True of every node but a sequence or a mapping.
    pub open spec fn is_scalar(self) -> bool {
        !(self is Sequence) && !(self is Mapping)
    }
}

} // verus!
