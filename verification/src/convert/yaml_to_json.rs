//! From a YAML document to a JSON document.

use vstd::prelude::*;
use crate::codec::{
    json_document, json_error_message, json_error_text, json_printed, json_to_string,
    json_value, yaml_error_message, yaml_error_text, yaml_from_str, yaml_parsed, yaml_tree,
    yaml_value,
};
use crate::error::{ConvertError, Ending, Failure, Outcome};
use crate::json::{
    array_view, lemma_array_view, lemma_object_view, members_map, members_view, JsonTree,
    JsonValue,
};
use crate::number::float_to_json;
use crate::remap::{
    bool_text, law_no_bool_or_null_survives, null_text, remap_entries, remap_items,
    remap_mapping, remap_scalar, remap_value, without_bool_or_null,
};
use crate::yaml::{
    lemma_mapping_view, lemma_sequence_view, mapping_view, sequence_view, Mapping, Sequence,
    YamlTree, YamlValue,
};

verus! {

/// The mathematical value of what a conversion step hands back.
pub open spec fn outcome_view(r: Result<JsonValue, ConvertError>) -> Result<JsonTree, Failure> {
    match r {
        Ok(j) => Ok(j@),
        Err(e) => Err(e@),
    }
}

/// Makes the JSON node of a floating point number out of what `serde_json`
/// made of the number: the number where there is one, and a numeric range
/// failure where there is none.
pub fn number_from_float(converted: Option<serde_json::Number>) -> (r: Result<
    JsonValue,
    ConvertError,
>)
    ensures
        outcome_view(r) == match converted {
            Some(j) => Ok::<JsonTree, Failure>(JsonTree::Float(j)),
            None => Err::<JsonTree, Failure>(Failure::NumericRange),
        },
{
    match converted {
        Some(j) => Ok(JsonValue::Float(j)),
        None => Err(ConvertError::NumericRange),
    }
}

/// Converts a scalar: a string or a number keeps its value, a boolean becomes
/// the string `true` or `false`, and null becomes the string `null`.  Fails
/// with a numeric range failure on a floating point number that is infinite
/// or not a number.
pub fn create_json_value(v: &YamlValue) -> (r: Result<JsonValue, ConvertError>)
    requires
        v@.is_scalar(),
    ensures
        outcome_view(r) == remap_scalar(v@),
{
    match v {
        YamlValue::String(s) => Ok(JsonValue::String(s.clone())),
        YamlValue::Bool(b) => {
            proof {
                reveal_strlit("true");
                reveal_strlit("false");
                assert("true"@ =~= bool_text(true));
                assert("false"@ =~= bool_text(false));
            }
            if *b {
                Ok(JsonValue::String("true".to_owned()))
            } else {
                Ok(JsonValue::String("false".to_owned()))
            }
        },
        YamlValue::Null => {
            proof {
                reveal_strlit("null");
                assert("null"@ =~= null_text());
            }
            Ok(JsonValue::String("null".to_owned()))
        },
        YamlValue::Int(i) => Ok(JsonValue::Int(*i)),
        YamlValue::UInt(u) => Ok(JsonValue::UInt(*u)),
        YamlValue::Float(n) => number_from_float(float_to_json(n)),
        YamlValue::Sequence(_) | YamlValue::Mapping(_) => {
            assert(false);
            Ok(JsonValue::Null)
        },
    }
}

/// Converts any node: a mapping becomes an object, a sequence an array, and
/// a scalar what [`create_json_value`] makes of it.
fn to_json_node(v: &YamlValue) -> (r: Result<JsonValue, ConvertError>)
    ensures
        outcome_view(r) == remap_value(v@),
    decreases v, 0int,
{
    match v {
        YamlValue::Mapping(entries) => {
            proof {
                lemma_mapping_view(*v);
            }
            to_json_object(entries)
        },
        YamlValue::Sequence(items) => {
            proof {
                lemma_sequence_view(*v);
            }
            to_json_array(items)
        },
        _ => create_json_value(v),
    }
}

/// Converts the elements of a sequence, in order, into an array.
fn to_json_array(items: &Sequence) -> (r: Result<JsonValue, ConvertError>)
    ensures
        outcome_view(r) == remap_value(YamlTree::Sequence(sequence_view(items@))),
    decreases items, 1int,
{
    let ghost source = sequence_view(items@);
    let mut elements: Vec<JsonValue> = Vec::new();
    let mut i: usize = 0;
    proof {
        assert(array_view(elements@) =~= Seq::empty());
    }
    while i < items.len()
        invariant
            i <= items.len(),
            source == sequence_view(items@),
            remap_items(source.take(i as int)) == Ok::<Seq<JsonTree>, Failure>(array_view(elements@)),
        decreases items.len() - i,
    {
        proof {
            assert(source.take(i + 1).drop_last() =~= source.take(i as int));
            assert(source.take(i + 1).last() == items@[i as int]@);
        }
        match to_json_node(&items[i]) {
            Ok(element) => {
                proof {
                    assert(array_view(elements@.push(element)) =~= array_view(elements@).push(
                        element@,
                    ));
                }
                elements.push(element);
            },
            Err(e) => {
                proof {
                    lemma_items_failure(source, i + 1);
                }
                return Err(e);
            },
        }
        i = i + 1;
    }
    proof {
        assert(source.take(i as int) =~= source);
    }
    let array = JsonValue::Array(elements);
    proof {
        lemma_array_view(array);
    }
    Ok(array)
}

/// Converts a mapping into an object.
///
/// Each entry, in order, gives one member: its key must be a string, and its
/// value is converted as deep as it goes.  The first entry that cannot be
/// converted decides the failure: a key type failure for a key that is no
/// string, a numeric range failure for a floating point number that is
/// infinite or not a number.
pub fn to_json_object(s: &Mapping) -> (r: Result<JsonValue, ConvertError>)
    ensures
        outcome_view(r) == remap_mapping(mapping_view(s@)),
    decreases s, 1int,
{
    let ghost source = mapping_view(s@);
    let mut members: Vec<(String, JsonValue)> = Vec::new();
    let mut i: usize = 0;
    while i < s.len()
        invariant
            i <= s.len(),
            source == mapping_view(s@),
            remap_entries(source.take(i as int)) == Ok::<Map<Seq<char>, JsonTree>, Failure>(
                members_map(members_view(members@)),
            ),
        decreases s.len() - i,
    {
        proof {
            assert(source.take(i + 1).drop_last() =~= source.take(i as int));
            assert(source.take(i + 1).last() == (s@[i as int].0@, s@[i as int].1@));
        }
        let entry = &s[i];
        let key = match &entry.0 {
            YamlValue::String(k) => k.clone(),
            _ => {
                proof {
                    lemma_entries_failure(source, i + 1);
                }
                return Err(ConvertError::KeyType);
            },
        };
        match to_json_node(&entry.1) {
            Ok(member) => {
                proof {
                    let grown = members_view(members@.push((key, member)));
                    assert(grown.drop_last() =~= members_view(members@));
                    assert(grown.last() == (key@, member@));
                }
                members.push((key, member));
            },
            Err(e) => {
                proof {
                    lemma_entries_failure(source, i + 1);
                }
                return Err(e);
            },
        }
        i = i + 1;
    }
    proof {
        assert(source.take(i as int) =~= source);
    }
    let object = JsonValue::Object(members);
    proof {
        lemma_object_view(object);
    }
    Ok(object)
}

/// Once the first `n` entries fail, the whole mapping fails in the same way.
proof fn lemma_entries_failure(entries: Seq<(YamlTree, YamlTree)>, n: int)
    requires
        0 <= n <= entries.len(),
        remap_entries(entries.take(n)) is Err,
    ensures
        remap_entries(entries) == remap_entries(entries.take(n)),
    decreases entries.len() - n,
{
    if n < entries.len() {
        assert(entries.take(n + 1).drop_last() =~= entries.take(n));
        lemma_entries_failure(entries, n + 1);
    } else {
        assert(entries.take(n) =~= entries);
    }
}

/// Once the first `n` elements fail, the whole sequence fails in the same way.
proof fn lemma_items_failure(items: Seq<YamlTree>, n: int)
    requires
        0 <= n <= items.len(),
        remap_items(items.take(n)) is Err,
    ensures
        remap_items(items) == remap_items(items.take(n)),
    decreases items.len() - n,
{
    if n < items.len() {
        assert(items.take(n + 1).drop_last() =~= items.take(n));
        lemma_items_failure(items, n + 1);
    } else {
        assert(items.take(n) =~= items);
    }
}

/// The entries of the mapping that a YAML text holds: a parse failure with
/// the parser's message where the text is no YAML document, and a failure of
/// its own where the document's root is anything but a mapping.
pub open spec fn parsed_mapping(text: Seq<char>) -> Result<Seq<(YamlTree, YamlTree)>, Failure> {
    match yaml_parsed(text) {
        Err(e) => Err(Failure::Parse(yaml_error_text(e))),
        Ok(document) => match yaml_tree(document) {
            YamlTree::Mapping(entries) => Ok(entries),
            _ => Err(Failure::NonMappingTopLevel),
        },
    }
}

/// The JSON text of a tree, or a serialize failure with the printer's
/// message.
pub open spec fn printed_json(tree: JsonTree) -> Result<Seq<char>, Failure> {
    match json_printed(json_document(tree)) {
        Ok(text) => Ok(text),
        Err(e) => Err(Failure::Serialize(json_error_text(e))),
    }
}

/// The JSON text of a mapping: its entries remapped, then printed.
pub open spec fn mapping_to_json(entries: Seq<(YamlTree, YamlTree)>) -> Result<Seq<char>, Failure> {
    match remap_mapping(entries) {
        Ok(tree) => printed_json(tree),
        Err(e) => Err(e),
    }
}

/// How a run on the given input ends.  A text that cannot be read as a
/// mapping stops the run, and so does a mapping that cannot be remapped.  A
/// refusal of the printer is reported where the document would have been.
pub open spec fn run_ending(input: Seq<char>) -> Ending {
    match parsed_mapping(input) {
        Err(e) => Ending::Abort(e),
        Ok(entries) => match mapping_to_json(entries) {
            Ok(text) => Ending::Print(text),
            Err(Failure::Serialize(message)) => Ending::Print(message),
            Err(e) => Ending::Abort(e),
        },
    }
}

/// Reads a YAML text whose root is a mapping.
pub fn parse_yaml(s: &str) -> (r: Result<Mapping, ConvertError>)
    ensures
        match r {
            Ok(mapping) => parsed_mapping(s@) == Ok::<Seq<(YamlTree, YamlTree)>, Failure>(
                mapping_view(mapping@),
            ),
            Err(e) => parsed_mapping(s@) == Err::<Seq<(YamlTree, YamlTree)>, Failure>(e@),
        },
{
    match yaml_from_str(s) {
        Err(e) => Err(ConvertError::Parse(yaml_error_message(&e))),
        Ok(document) => {
            let root = yaml_value(&document);
            proof {
                if root is Mapping {
                    lemma_mapping_view(root);
                }
            }
            match root {
                YamlValue::Mapping(entries) => Ok(entries),
                _ => Err(ConvertError::NonMappingTopLevel),
            }
        },
    }
}

/// Converts a mapping to JSON text.
pub fn to_json(s: &Mapping) -> (r: Result<String, ConvertError>)
    ensures
        match r {
            Ok(text) => mapping_to_json(mapping_view(s@)) == Ok::<Seq<char>, Failure>(text@),
            Err(e) => mapping_to_json(mapping_view(s@)) == Err::<Seq<char>, Failure>(e@),
        },
{
    match to_json_object(s) {
        Err(e) => Err(e),
        Ok(json) => {
            let document = json_value(&json);
            match json_to_string(&document) {
                Ok(text) => Ok(text),
                Err(e) => Err(ConvertError::Serialize(json_error_message(&e))),
            }
        },
    }
}

/// Converts a YAML text to JSON text and decides how the run ends.
pub fn run(input: &str) -> (r: Outcome)
    ensures
        r@ == run_ending(input@),
{
    match parse_yaml(input) {
        Err(e) => Outcome::Abort(e),
        Ok(mapping) => match to_json(&mapping) {
            Ok(text) => Outcome::Print(text),
            Err(ConvertError::Serialize(message)) => Outcome::Print(message),
            Err(e) => Outcome::Abort(e),
        },
    }
}

/// A text that is no YAML document stops the run with a parse failure that
/// holds the parser's message, and nothing is put out.
pub proof fn law_malformed_input_stops_run(input: Seq<char>)
    requires
        yaml_parsed(input) is Err,
    ensures
        parsed_mapping(input) == Err::<Seq<(YamlTree, YamlTree)>, Failure>(
            Failure::Parse(yaml_error_text(yaml_parsed(input)->Err_0)),
        ),
        run_ending(input) == Ending::Abort(
            Failure::Parse(yaml_error_text(yaml_parsed(input)->Err_0)),
        ),
{
}

/// A document whose root is a scalar or a sequence is never taken for a
/// mapping: it stops the run with a failure of its own.
pub proof fn law_root_must_be_mapping(input: Seq<char>)
    requires
        yaml_parsed(input) is Ok,
        !(yaml_tree(yaml_parsed(input)->Ok_0) is Mapping),
    ensures
        parsed_mapping(input) == Err::<Seq<(YamlTree, YamlTree)>, Failure>(
            Failure::NonMappingTopLevel,
        ),
        run_ending(input) == Ending::Abort(Failure::NonMappingTopLevel),
{
}

/// Where the input is read as a mapping and the mapping is converted and
/// printed, the run puts out that text, and the text is the print of a tree
/// that holds no boolean and no null.
pub proof fn law_output_is_remapped_mapping(input: Seq<char>)
    requires
        parsed_mapping(input) is Ok,
        mapping_to_json(parsed_mapping(input)->Ok_0) is Ok,
    ensures
        remap_mapping(parsed_mapping(input)->Ok_0) is Ok,
        without_bool_or_null(remap_mapping(parsed_mapping(input)->Ok_0)->Ok_0),
        run_ending(input) == Ending::Print(mapping_to_json(parsed_mapping(input)->Ok_0)->Ok_0),
        printed_json(remap_mapping(parsed_mapping(input)->Ok_0)->Ok_0) == Ok::<Seq<char>, Failure>(
            mapping_to_json(parsed_mapping(input)->Ok_0)->Ok_0,
        ),
{
    law_no_bool_or_null_survives(YamlTree::Mapping(parsed_mapping(input)->Ok_0));
}

} // verus!
