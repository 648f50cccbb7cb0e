//! Reading and printing documents with `serde_yaml` and `serde_json`.
//!
//! Nothing in this file is proved.  Each function hands its argument to one
//! function of those crates, and its contract gives the result a name, which
//! says that the result depends on the argument alone.  What the result is
//! on a given document is for the tests to show.

use vstd::prelude::*;
use serde_json::Map as JsonMembers;
use serde_json::Number as JsonNumber;
use serde_json::Value as JsonDocument;
use serde_yaml::Value as YamlDocument;
use crate::json::{JsonTree, JsonValue};
use crate::yaml::{YamlTree, YamlValue};

verus! {

/// A YAML document as `serde_yaml` holds it.
#[verifier::external_type_specification]
#[verifier::external_body]
pub struct ExYamlDocument(serde_yaml::Value);

/// The error of `serde_yaml`.
#[verifier::external_type_specification]
#[verifier::external_body]
pub struct ExYamlError(serde_yaml::Error);

/// A JSON document as `serde_json` holds it.
#[verifier::external_type_specification]
#[verifier::external_body]
pub struct ExJsonDocument(serde_json::Value);

/// The error of `serde_json`.
#[verifier::external_type_specification]
#[verifier::external_body]
pub struct ExJsonError(serde_json::Error);

/// What `serde_yaml::from_str` makes of a text.
pub uninterp spec fn yaml_parsed(text: Seq<char>) -> Result<serde_yaml::Value, serde_yaml::Error>;

/// What `serde_yaml::to_string` makes of a document.
pub uninterp spec fn yaml_printed(document: serde_yaml::Value) -> Result<
    Seq<char>,
    serde_yaml::Error,
>;

/// What `serde_json::from_str` makes of a text.
pub uninterp spec fn json_parsed(text: Seq<char>) -> Result<serde_json::Value, serde_json::Error>;

/// What `serde_json::to_string` makes of a document.
pub uninterp spec fn json_printed(document: serde_json::Value) -> Result<
    Seq<char>,
    serde_json::Error,
>;

/// The message that an error of `serde_yaml` displays.
pub uninterp spec fn yaml_error_text(e: serde_yaml::Error) -> Seq<char>;

/// The message that an error of `serde_json` displays.
pub uninterp spec fn json_error_text(e: serde_json::Error) -> Seq<char>;

/// The tree that a document of `serde_yaml` holds.
pub uninterp spec fn yaml_tree(document: serde_yaml::Value) -> YamlTree;

/// The document of `serde_json` that holds a tree.
pub uninterp spec fn json_document(tree: JsonTree) -> serde_json::Value;

/// Calls `serde_yaml::from_str` for a `serde_yaml::Value`.
///
/// Trusted: the document or the error depends on the text alone.
#[verifier::external_body]
pub(crate) fn yaml_from_str(text: &str) -> (r: Result<serde_yaml::Value, serde_yaml::Error>)
    ensures
        r == yaml_parsed(text@),
{
    serde_yaml::from_str::<serde_yaml::Value>(text)
}

/// Calls `serde_yaml::to_string` on a `serde_yaml::Value`.
///
/// Trusted: the text or the error depends on the document alone.
#[verifier::external_body]
pub(crate) fn yaml_to_string(document: &serde_yaml::Value) -> (r: Result<String, serde_yaml::Error>)
    ensures
        match r {
            Ok(text) => yaml_printed(*document) == Ok::<Seq<char>, serde_yaml::Error>(text@),
            Err(e) => yaml_printed(*document) == Err::<Seq<char>, serde_yaml::Error>(e),
        },
{
    serde_yaml::to_string(document)
}

/// Calls `serde_json::from_str` for a `serde_json::Value`.
///
/// Trusted: the document or the error depends on the text alone.
#[verifier::external_body]
pub(crate) fn json_from_str(text: &str) -> (r: Result<serde_json::Value, serde_json::Error>)
    ensures
        r == json_parsed(text@),
{
    serde_json::from_str::<serde_json::Value>(text)
}

/// Calls `serde_json::to_string` on a `serde_json::Value`.
///
/// Trusted: the text or the error depends on the document alone.
#[verifier::external_body]
pub(crate) fn json_to_string(document: &serde_json::Value) -> (r: Result<String, serde_json::Error>)
    ensures
        match r {
            Ok(text) => json_printed(*document) == Ok::<Seq<char>, serde_json::Error>(text@),
            Err(e) => json_printed(*document) == Err::<Seq<char>, serde_json::Error>(e),
        },
{
    serde_json::to_string(document)
}

/// Displays an error of `serde_yaml`.
///
/// Trusted: the message depends on the error alone.
#[verifier::external_body]
pub(crate) fn yaml_error_message(e: &serde_yaml::Error) -> (r: String)
    ensures
        r@ == yaml_error_text(*e),
{
    e.to_string()
}

/// Displays an error of `serde_json`.
///
/// Trusted: the message depends on the error alone.
#[verifier::external_body]
pub(crate) fn json_error_message(e: &serde_json::Error) -> (r: String)
    ensures
        r@ == json_error_text(*e),
{
    e.to_string()
}

/// Copies a document of `serde_yaml` into a [`YamlValue`], node by node.
///
/// A number becomes `Int` where `as_i64` gives a value, else `UInt` where
/// `as_u64` gives one, else `Float`.  The entries of a mapping come in the
/// order in which `serde_yaml::Mapping::iter` hands them out, which is the
/// order of the document.
///
/// Trusted: the tree of the copy depends on the document alone.
#[verifier::external_body]
pub(crate) fn yaml_value(document: &serde_yaml::Value) -> (r: YamlValue)
    ensures
        r@ == yaml_tree(*document),
{
    match document {
        YamlDocument::Null => YamlValue::Null,
        YamlDocument::Bool(b) => YamlValue::Bool(*b),
        YamlDocument::Number(n) => match (n.as_i64(), n.as_u64()) {
            (Some(i), _) => YamlValue::Int(i),
            (_, Some(u)) => YamlValue::UInt(u),
            _ => YamlValue::Float(n.clone()),
        },
        YamlDocument::String(s) => YamlValue::String(s.clone()),
        YamlDocument::Sequence(s) => YamlValue::Sequence(s.iter().map(yaml_value).collect()),
        YamlDocument::Mapping(m) => YamlValue::Mapping(
            m.iter().map(|(k, v)| (yaml_value(k), yaml_value(v))).collect(),
        ),
    }
}

/// Copies a [`JsonValue`] into a document of `serde_json`, node by node.
///
/// The members of an object are written into a `serde_json::Map` with
/// `insert`, one after the other, so that a later member replaces an earlier
/// one of the same key.
///
/// Trusted: the document depends on the tree of the value alone.
#[verifier::external_body]
pub(crate) fn json_value(value: &JsonValue) -> (r: serde_json::Value)
    ensures
        r == json_document(value@),
{
    match value {
        JsonValue::Null => JsonDocument::Null,
        JsonValue::Bool(b) => JsonDocument::Bool(*b),
        JsonValue::Int(i) => JsonDocument::Number(JsonNumber::from(*i)),
        JsonValue::UInt(u) => JsonDocument::Number(JsonNumber::from(*u)),
        JsonValue::Float(n) => JsonDocument::Number(n.clone()),
        JsonValue::String(s) => JsonDocument::String(s.clone()),
        JsonValue::Array(a) => JsonDocument::Array(a.iter().map(json_value).collect()),
        JsonValue::Object(o) => {
            let mut members = JsonMembers::new();
            o.iter().for_each(|(k, v)| { members.insert(k.clone(), json_value(v)); });
            JsonDocument::Object(members)
        },
    }
}

} // verus!
