//! What a YAML tree becomes in JSON, as mathematics.
//!
//! Mappings become objects and sequences become arrays, to any depth.
//! Strings and numbers keep their value.  Booleans and null do not survive as
//! such: they become the strings `true`, `false` and `null`.

use vstd::prelude::*;
use crate::error::Failure;
use crate::json::JsonTree;
use crate::number::finite_number;
use crate::yaml::YamlTree;

verus! {

/// The string that stands for a boolean in JSON.
pub open spec fn bool_text(b: bool) -> Seq<char> {
    if b {
        seq!['t', 'r', 'u', 'e']
    } else {
        seq!['f', 'a', 'l', 's', 'e']
    }
}

/// The string that stands for null in JSON.
pub open spec fn null_text() -> Seq<char> {
    seq!['n', 'u', 'l', 'l']
}

/// The JSON value of a scalar: a string or an integer keeps its value, a
/// boolean or null becomes a string, and a floating point number becomes
/// what the number library makes of it, or fails where it makes nothing.
/// A sequence or a mapping is no scalar, and what is said of one here has no
/// meaning.
pub open spec fn remap_scalar(v: YamlTree) -> Result<JsonTree, Failure>
    recommends
        v.is_scalar(),
{
    match v {
        YamlTree::String(s) => Ok(JsonTree::String(s)),
        YamlTree::Bool(b) => Ok(JsonTree::String(bool_text(b))),
        YamlTree::Null => Ok(JsonTree::String(null_text())),
        YamlTree::Int(i) => Ok(JsonTree::Integer(i as int)),
        YamlTree::UInt(u) => Ok(JsonTree::Integer(u as int)),
        YamlTree::Float(n) => match finite_number(n) {
            Some(j) => Ok(JsonTree::Float(j)),
            None => Err(Failure::NumericRange),
        },
        YamlTree::Sequence(_) | YamlTree::Mapping(_) => Ok(JsonTree::Null),
    }
}

/// The JSON value of any node: the object of a mapping, the array of a
/// sequence, the scalar value of a scalar.
pub open spec fn remap_value(v: YamlTree) -> Result<JsonTree, Failure>
    decreases v, 0int,
{
    match v {
        YamlTree::Mapping(entries) => match remap_entries(entries) {
            Ok(members) => Ok(JsonTree::Object(members)),
            Err(e) => Err(e),
        },
        YamlTree::Sequence(items) => match remap_items(items) {
            Ok(elements) => Ok(JsonTree::Array(elements)),
            Err(e) => Err(e),
        },
        _ => remap_scalar(v),
    }
}

/// The members of the object that a mapping's entries make, taken in order:
/// the first entry that cannot be converted decides the failure, and a key
/// that comes again replaces the member it made before.
pub open spec fn remap_entries(entries: Seq<(YamlTree, YamlTree)>) -> Result<
    Map<Seq<char>, JsonTree>,
    Failure,
>
    decreases entries, 1int,
{
    if entries.len() == 0 {
        Ok(Map::empty())
    } else {
        match remap_entries(entries.drop_last()) {
            Err(e) => Err(e),
            Ok(members) => match entries.last().0 {
                YamlTree::String(key) => match remap_value(entries.last().1) {
                    Ok(member) => Ok(members.insert(key, member)),
                    Err(e) => Err(e),
                },
                _ => Err(Failure::KeyType),
            },
        }
    }
}

/// The elements of the array that a sequence's elements make, taken in
/// order: the first element that cannot be converted decides the failure.
pub open spec fn remap_items(items: Seq<YamlTree>) -> Result<Seq<JsonTree>, Failure>
    decreases items, 1int,
{
    if items.len() == 0 {
        Ok(Seq::empty())
    } else {
        match remap_items(items.drop_last()) {
            Err(e) => Err(e),
            Ok(elements) => match remap_value(items.last()) {
                Ok(element) => Ok(elements.push(element)),
                Err(e) => Err(e),
            },
        }
    }
}

/// The JSON object of a mapping with the given entries.
pub open spec fn remap_mapping(entries: Seq<(YamlTree, YamlTree)>) -> Result<JsonTree, Failure> {
    remap_value(YamlTree::Mapping(entries))
}

/// An array has one element for each element of the sequence, in the same
/// order, and each is what its element alone would give.  So a sequence of
/// scalars becomes the array of their scalar values, and every mapping in a
/// sequence, however many there are, becomes an object of its own at the
/// same place.
pub proof fn law_array_follows_sequence(items: Seq<YamlTree>)
    requires
        remap_items(items) is Ok,
    ensures
        remap_items(items)->Ok_0.len() == items.len(),
        forall|i: int|
            0 <= i < items.len() ==> #[trigger] remap_value(items[i]) == Ok::<JsonTree, Failure>(
                remap_items(items)->Ok_0[i],
            ),
    decreases items.len(),
{
    if items.len() > 0 {
        law_array_follows_sequence(items.drop_last());
        let front = remap_items(items.drop_last())->Ok_0;
        assert forall|i: int| 0 <= i < items.len() implies #[trigger] remap_value(items[i]) == Ok::<
            JsonTree,
            Failure,
        >(remap_items(items)->Ok_0[i]) by {
            if i < items.len() - 1 {
                assert(items.drop_last()[i] == items[i]);
                assert(remap_value(items.drop_last()[i]) == Ok::<JsonTree, Failure>(front[i]));
            }
        }
    }
}

/// A sequence is converted exactly when each of its elements is, and where
/// it is not, the failure is that of the first element that fails.
pub proof fn law_sequence_fails_at_first(items: Seq<YamlTree>)
    ensures
        remap_items(items) is Ok <==> forall|i: int|
            0 <= i < items.len() ==> #[trigger] remap_value(items[i]) is Ok,
        remap_items(items) is Err ==> exists|i: int|
            0 <= i < items.len() && #[trigger] remap_value(items[i]) is Err && remap_items(items)->Err_0
                == remap_value(items[i])->Err_0 && forall|j: int|
                0 <= j < i ==> #[trigger] remap_value(items[j]) is Ok,
    decreases items.len(),
{
    if items.len() > 0 {
        let front = items.drop_last();
        law_sequence_fails_at_first(front);
        assert forall|i: int| 0 <= i < front.len() implies front[i] == items[i] by {}
        if remap_items(front) is Err {
            let i = choose|i: int|
                0 <= i < front.len() && #[trigger] remap_value(front[i]) is Err && remap_items(
                    front,
                )->Err_0 == remap_value(front[i])->Err_0 && forall|j: int|
                    0 <= j < i ==> #[trigger] remap_value(front[j]) is Ok;
            assert(front[i] == items[i]);
            assert forall|j: int| 0 <= j < i implies #[trigger] remap_value(items[j]) is Ok by {
                assert(front[j] == items[j]);
            }
        } else {
            assert forall|j: int| 0 <= j < items.len() - 1 implies #[trigger] remap_value(
                items[j],
            ) is Ok by {
                assert(front[j] == items[j]);
            }
            if remap_value(items.last()) is Err {
                assert(remap_value(items[items.len() - 1]) is Err);
            }
        }
    }
}

/// The failure of a single entry, if it has one: a key type failure for a
/// key that is no string, else the failure of its value.
pub open spec fn entry_failure(entry: (YamlTree, YamlTree)) -> Option<Failure> {
    if !(entry.0 is String) {
        Some(Failure::KeyType)
    } else {
        match remap_value(entry.1) {
            Ok(_) => None,
            Err(e) => Some(e),
        }
    }
}

/// An object has a member for each key of the mapping and no other, and the
/// member under a key is what the value of the last entry with that key
/// alone would give.  So keys are kept, and a mapping inside a mapping
/// becomes an object inside an object, to any depth.
pub proof fn law_object_follows_mapping(entries: Seq<(YamlTree, YamlTree)>)
    requires
        remap_entries(entries) is Ok,
    ensures
        remap_entries(entries)->Ok_0.dom().finite(),
        forall|i: int| 0 <= i < entries.len() ==> (#[trigger] entries[i]).0 is String,
        forall|key: Seq<char>| #[trigger]
            remap_entries(entries)->Ok_0.dom().contains(key) <==> exists|i: int|
                0 <= i < entries.len() && (#[trigger] entries[i]).0 == YamlTree::String(key),
        forall|i: int|
            0 <= i < entries.len() && (forall|j: int|
                i < j < entries.len() ==> (#[trigger] entries[j]).0 != entries[i].0)
                ==> remap_value((#[trigger] entries[i]).1) == Ok::<JsonTree, Failure>(
                remap_entries(entries)->Ok_0[entries[i].0->String_0],
            ),
    decreases entries.len(),
{
    if entries.len() > 0 {
        let front = entries.drop_last();
        let last = entries.last();
        law_object_follows_mapping(front);
        let before = remap_entries(front)->Ok_0;
        let after = remap_entries(entries)->Ok_0;
        let last_key = last.0->String_0;
        assert(after == before.insert(last_key, remap_value(last.1)->Ok_0));
        assert forall|i: int| 0 <= i < entries.len() implies (#[trigger] entries[i]).0 is String by {
            if i < entries.len() - 1 {
                assert(front[i] == entries[i]);
            }
        }
        assert forall|key: Seq<char>| #[trigger]
            after.dom().contains(key) <==> exists|i: int|
                0 <= i < entries.len() && (#[trigger] entries[i]).0 == YamlTree::String(key) by {
            if after.dom().contains(key) {
                if key == last_key {
                    assert(entries[entries.len() - 1].0 == YamlTree::String(key));
                } else {
                    assert(before.dom().contains(key));
                    let i = choose|i: int|
                        0 <= i < front.len() && (#[trigger] front[i]).0 == YamlTree::String(key);
                    assert(entries[i] == front[i]);
                }
            }
            if exists|i: int|
                0 <= i < entries.len() && (#[trigger] entries[i]).0 == YamlTree::String(key) {
                let i = choose|i: int|
                    0 <= i < entries.len() && (#[trigger] entries[i]).0 == YamlTree::String(key);
                if i < entries.len() - 1 {
                    assert(front[i] == entries[i]);
                    assert(before.dom().contains(key));
                }
            }
        }
        assert forall|i: int|
            0 <= i < entries.len() && (forall|j: int|
                i < j < entries.len() ==> (#[trigger] entries[j]).0
                    != entries[i].0) implies remap_value((#[trigger] entries[i]).1) == Ok::<
            JsonTree,
            Failure,
        >(after[entries[i].0->String_0]) by {
            if i < entries.len() - 1 {
                assert(front[i] == entries[i]);
                assert(entries[entries.len() - 1].0 != entries[i].0);
                assert forall|j: int| i < j < front.len() implies (#[trigger] front[j]).0
                    != front[i].0 by {
                    assert(front[j] == entries[j]);
                }
                assert(remap_value(front[i].1) == Ok::<JsonTree, Failure>(
                    before[front[i].0->String_0],
                ));
            }
        }
    }
}

/// A mapping is converted exactly when no entry has a failure, and where it
/// is not, the failure is that of the first entry that has one.
pub proof fn law_mapping_fails_at_first(entries: Seq<(YamlTree, YamlTree)>)
    ensures
        remap_entries(entries) is Ok <==> forall|i: int|
            0 <= i < entries.len() ==> #[trigger] entry_failure(entries[i]) is None,
        remap_entries(entries) is Err ==> exists|i: int|
            0 <= i < entries.len() && #[trigger] entry_failure(entries[i]) == Some(
                remap_entries(entries)->Err_0,
            ) && forall|j: int| 0 <= j < i ==> #[trigger] entry_failure(entries[j]) is None,
    decreases entries.len(),
{
    if entries.len() > 0 {
        let front = entries.drop_last();
        law_mapping_fails_at_first(front);
        assert forall|i: int| 0 <= i < front.len() implies front[i] == entries[i] by {}
        if remap_entries(front) is Err {
            let i = choose|i: int|
                0 <= i < front.len() && #[trigger] entry_failure(front[i]) == Some(
                    remap_entries(front)->Err_0,
                ) && forall|j: int| 0 <= j < i ==> #[trigger] entry_failure(front[j]) is None;
            assert(front[i] == entries[i]);
            assert(entry_failure(entries[i]) == Some(remap_entries(entries)->Err_0));
            assert forall|j: int| 0 <= j < i implies #[trigger] entry_failure(
                entries[j],
            ) is None by {
                assert(front[j] == entries[j]);
            }
        } else {
            assert forall|j: int| 0 <= j < entries.len() - 1 implies #[trigger] entry_failure(
                entries[j],
            ) is None by {
                assert(front[j] == entries[j]);
            }
            if remap_entries(entries) is Err {
                assert(entry_failure(entries[entries.len() - 1]) == Some(
                    remap_entries(entries)->Err_0,
                ));
            }
        }
    }
}

/// A mapping with a single entry under a string key becomes the object with
/// the single member that the value gives, under the same key.
pub proof fn law_single_entry(key: Seq<char>, value: YamlTree)
    ensures
        remap_mapping(seq![(YamlTree::String(key), value)]) == match remap_value(value) {
            Ok(member) => Ok::<JsonTree, Failure>(JsonTree::Object(map![key => member])),
            Err(e) => Err::<JsonTree, Failure>(e),
        },
{
    let entries = seq![(YamlTree::String(key), value)];
    assert(entries.drop_last() =~= Seq::empty());
    assert(remap_entries(entries.drop_last()) == Ok::<Map<Seq<char>, JsonTree>, Failure>(
        Map::empty(),
    ));
    assert(entries.last() == (YamlTree::String(key), value));
    assert(Map::<Seq<char>, JsonTree>::empty().insert(key, remap_value(value)->Ok_0)
        =~= map![key => remap_value(value)->Ok_0]);
}

/// A boolean under a key becomes the string `true` or `false` under that
/// key, and never a JSON boolean.
pub proof fn law_boolean_becomes_string(key: Seq<char>, b: bool)
    ensures
        remap_mapping(seq![(YamlTree::String(key), YamlTree::Bool(b))]) == Ok::<JsonTree, Failure>(
            JsonTree::Object(map![key => JsonTree::String(bool_text(b))]),
        ),
        bool_text(b) == if b {
            seq!['t', 'r', 'u', 'e']
        } else {
            seq!['f', 'a', 'l', 's', 'e']
        },
{
    law_single_entry(key, YamlTree::Bool(b));
}

/// Null under a key becomes the string `null` under that key.
pub proof fn law_null_becomes_string(key: Seq<char>)
    ensures
        remap_mapping(seq![(YamlTree::String(key), YamlTree::Null)]) == Ok::<JsonTree, Failure>(
            JsonTree::Object(map![key => JsonTree::String(seq!['n', 'u', 'l', 'l'])]),
        ),
{
    law_single_entry(key, YamlTree::Null);
}

/// An integer, signed or unsigned, becomes the JSON integer of the same
/// value, and never a string.
pub proof fn law_integers_keep_value(key: Seq<char>, i: i64, u: u64)
    ensures
        remap_value(YamlTree::Int(i)) == Ok::<JsonTree, Failure>(JsonTree::Integer(i as int)),
        remap_value(YamlTree::UInt(u)) == Ok::<JsonTree, Failure>(JsonTree::Integer(u as int)),
        remap_mapping(seq![(YamlTree::String(key), YamlTree::Int(i))]) == Ok::<JsonTree, Failure>(
            JsonTree::Object(map![key => JsonTree::Integer(i as int)]),
        ),
        remap_mapping(seq![(YamlTree::String(key), YamlTree::UInt(u))]) == Ok::<JsonTree, Failure>(
            JsonTree::Object(map![key => JsonTree::Integer(u as int)]),
        ),
{
    law_single_entry(key, YamlTree::Int(i));
    law_single_entry(key, YamlTree::UInt(u));
}

/// A floating point number becomes the JSON number that the number library
/// makes of it, and a numeric range failure where the library makes none.
pub proof fn law_float_converts_or_fails(key: Seq<char>, n: serde_yaml::Number)
    ensures
        remap_value(YamlTree::Float(n)) == match finite_number(n) {
            Some(j) => Ok::<JsonTree, Failure>(JsonTree::Float(j)),
            None => Err::<JsonTree, Failure>(Failure::NumericRange),
        },
        remap_mapping(seq![(YamlTree::String(key), YamlTree::Float(n))]) == match finite_number(n) {
            Some(j) => Ok::<JsonTree, Failure>(JsonTree::Object(map![key => JsonTree::Float(j)])),
            None => Err::<JsonTree, Failure>(Failure::NumericRange),
        },
{
    law_single_entry(key, YamlTree::Float(n));
}

/// A sequence of scalars that can each be converted becomes the array of
/// their scalar values, in the same order.
pub proof fn law_sequence_of_scalars(items: Seq<YamlTree>)
    requires
        forall|i: int| 0 <= i < items.len() ==> (#[trigger] items[i]).is_scalar(),
        forall|i: int| 0 <= i < items.len() ==> remap_scalar(#[trigger] items[i]) is Ok,
    ensures
        remap_value(YamlTree::Sequence(items)) == Ok::<JsonTree, Failure>(
            JsonTree::Array(Seq::new(items.len(), |i: int| remap_scalar(items[i])->Ok_0)),
        ),
{
    law_sequence_fails_at_first(items);
    assert forall|i: int| 0 <= i < items.len() implies #[trigger] remap_value(items[i]) is Ok by {
        assert(items[i].is_scalar());
        assert(remap_scalar(items[i]) is Ok);
    }
    law_array_follows_sequence(items);
    let elements = remap_items(items)->Ok_0;
    assert forall|i: int| 0 <= i < items.len() implies elements[i] == remap_scalar(
        items[i],
    )->Ok_0 by {
        assert(items[i].is_scalar());
        assert(remap_value(items[i]) == Ok::<JsonTree, Failure>(elements[i]));
    }
    assert(elements =~= Seq::new(items.len(), |i: int| remap_scalar(items[i])->Ok_0));
}

/// Every mapping among the elements of a sequence becomes the object of that
/// mapping alone, at the place where the mapping stood.
pub proof fn law_mappings_in_sequence(items: Seq<YamlTree>, i: int)
    requires
        remap_items(items) is Ok,
        0 <= i < items.len(),
        items[i] is Mapping,
    ensures
        remap_value(YamlTree::Sequence(items)) is Ok,
        remap_value(YamlTree::Sequence(items))->Ok_0 is Array,
        remap_value(YamlTree::Sequence(items))->Ok_0->Array_0.len() == items.len(),
        remap_mapping(items[i]->Mapping_0) == Ok::<JsonTree, Failure>(
            remap_value(YamlTree::Sequence(items))->Ok_0->Array_0[i],
        ),
{
    law_array_follows_sequence(items);
    assert(remap_value(items[i]) == Ok::<JsonTree, Failure>(remap_items(items)->Ok_0[i]));
}

/// A mapping under a key that no later entry repeats becomes, under the same
/// key, the object of that mapping alone.
pub proof fn law_nested_mapping(entries: Seq<(YamlTree, YamlTree)>, i: int)
    requires
        remap_entries(entries) is Ok,
        0 <= i < entries.len(),
        entries[i].1 is Mapping,
        forall|j: int| i < j < entries.len() ==> (#[trigger] entries[j]).0 != entries[i].0,
    ensures
        entries[i].0 is String,
        remap_mapping(entries) is Ok,
        remap_mapping(entries)->Ok_0 is Object,
        remap_mapping(entries)->Ok_0->Object_0.dom().contains(entries[i].0->String_0),
        remap_mapping(entries[i].1->Mapping_0) == Ok::<JsonTree, Failure>(
            remap_mapping(entries)->Ok_0->Object_0[entries[i].0->String_0],
        ),
{
    law_object_follows_mapping(entries);
    assert(entries[i].0 is String);
    assert(entries[i].0 == YamlTree::String(entries[i].0->String_0));
    assert(remap_value(entries[i].1) == Ok::<JsonTree, Failure>(
        remap_entries(entries)->Ok_0[entries[i].0->String_0],
    ));
}

/// True of a JSON tree that holds neither a boolean nor null, at any depth.
pub open spec fn without_bool_or_null(tree: JsonTree) -> bool
    decreases tree,
{
    match tree {
        JsonTree::Null => false,
        JsonTree::Bool(_) => false,
        JsonTree::Array(elements) => forall|i: int|
            0 <= i < elements.len() ==> without_bool_or_null(#[trigger] elements[i]),
        JsonTree::Object(members) => members.dom().finite() && forall|key: Seq<char>|
            members.dom().contains(key) ==> without_bool_or_null(#[trigger] members[key]),
        _ => true,
    }
}

/// Whatever the YAML tree, the JSON tree made of it holds no boolean and no
/// null: they have all become strings.
pub proof fn law_no_bool_or_null_survives(v: YamlTree)
    requires
        remap_value(v) is Ok,
    ensures
        without_bool_or_null(remap_value(v)->Ok_0),
    decreases v, 0int,
{
    match v {
        YamlTree::Mapping(entries) => {
            lemma_members_without_bool_or_null(entries);
        },
        YamlTree::Sequence(items) => {
            lemma_elements_without_bool_or_null(items);
        },
        _ => {},
    }
}

proof fn lemma_members_without_bool_or_null(entries: Seq<(YamlTree, YamlTree)>)
    requires
        remap_entries(entries) is Ok,
    ensures
        without_bool_or_null(JsonTree::Object(remap_entries(entries)->Ok_0)),
    decreases entries, 1int,
{
    if entries.len() > 0 {
        lemma_members_without_bool_or_null(entries.drop_last());
        law_no_bool_or_null_survives(entries.last().1);
    }
}

proof fn lemma_elements_without_bool_or_null(items: Seq<YamlTree>)
    requires
        remap_items(items) is Ok,
    ensures
        without_bool_or_null(JsonTree::Array(remap_items(items)->Ok_0)),
    decreases items, 1int,
{
    if items.len() > 0 {
        lemma_elements_without_bool_or_null(items.drop_last());
        law_no_bool_or_null_survives(items.last());
        let front = remap_items(items.drop_last())->Ok_0;
        let elements = remap_items(items)->Ok_0;
        assert(elements == front.push(remap_value(items.last())->Ok_0));
        assert forall|i: int| 0 <= i < elements.len() implies without_bool_or_null(
            #[trigger] elements[i],
        ) by {
            if i < front.len() {
                assert(JsonTree::Array(front)->Array_0[i] == elements[i]);
            }
        }
    }
}

} // verus!
