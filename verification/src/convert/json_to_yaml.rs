//! From a JSON document to a YAML document.
//!
//! No tree is rebuilt on this way: the text must be JSON, and is then read
//! as YAML and printed again as it was read.

use vstd::prelude::*;
use crate::codec::{
    json_error_message, json_error_text, json_from_str, json_parsed, yaml_error_message,
    yaml_error_text, yaml_from_str, yaml_parsed, yaml_printed, yaml_to_string,
};
use crate::error::{failure_text, ConvertError, Ending, Failure, Outcome};

verus! {

/// Whether a text is a JSON document: nothing where it is, a parse failure
/// with the parser's message where it is not.
pub open spec fn checked_json(text: Seq<char>) -> Result<(), Failure> {
    match json_parsed(text) {
        Ok(_) => Ok(()),
        Err(e) => Err(Failure::Parse(json_error_text(e))),
    }
}

/// The YAML text of a document read as YAML: a parse failure with the
/// parser's message where the text cannot be read, a serialize failure with
/// the printer's message where what was read cannot be printed.
pub open spec fn printed_yaml(text: Seq<char>) -> Result<Seq<char>, Failure> {
    match yaml_parsed(text) {
        Err(e) => Err(Failure::Parse(yaml_error_text(e))),
        Ok(document) => match yaml_printed(document) {
            Ok(out) => Ok(out),
            Err(e) => Err(Failure::Serialize(yaml_error_text(e))),
        },
    }
}

/// How a run on the given input ends.  A text that is no JSON stops the
/// run.  After that, whatever comes of reading and printing is put
/// out: the YAML text, or the message of the failure in its place.
pub open spec fn run_ending(input: Seq<char>) -> Ending {
    match checked_json(input) {
        Err(e) => Ending::Abort(e),
        Ok(_) => match printed_yaml(input) {
            Ok(text) => Ending::Print(text),
            Err(e) => Ending::Print(failure_text(e)),
        },
    }
}

/// Checks that a text is a JSON document.
pub fn parse_json(s: &str) -> (r: Result<(), ConvertError>)
    ensures
        match r {
            Ok(_) => checked_json(s@) == Ok::<(), Failure>(()),
            Err(e) => checked_json(s@) == Err::<(), Failure>(e@),
        },
{
    match json_from_str(s) {
        Ok(_) => Ok(()),
        Err(e) => Err(ConvertError::Parse(json_error_message(&e))),
    }
}

/// Converts a JSON text to YAML text.
pub fn to_yaml(s: &str) -> (r: Result<String, ConvertError>)
    ensures
        match r {
            Ok(text) => printed_yaml(s@) == Ok::<Seq<char>, Failure>(text@),
            Err(e) => printed_yaml(s@) == Err::<Seq<char>, Failure>(e@),
        },
{
    match yaml_from_str(s) {
        Err(e) => Err(ConvertError::Parse(yaml_error_message(&e))),
        Ok(document) => match yaml_to_string(&document) {
            Ok(text) => Ok(text),
            Err(e) => Err(ConvertError::Serialize(yaml_error_message(&e))),
        },
    }
}

/// Converts a JSON text to YAML text and decides how the run ends.
pub fn run(input: &str) -> (r: Outcome)
    ensures
        r@ == run_ending(input@),
{
    match parse_json(input) {
        Err(e) => Outcome::Abort(e),
        Ok(_) => match to_yaml(input) {
            Ok(text) => Outcome::Print(text),
            Err(e) => Outcome::Print(e.message()),
        },
    }
}

/// A text that is no JSON document stops the run with a parse failure that
/// holds the parser's message, and nothing is put out.
pub proof fn law_malformed_input_stops_run(input: Seq<char>)
    requires
        json_parsed(input) is Err,
    ensures
        checked_json(input) == Err::<(), Failure>(
            Failure::Parse(json_error_text(json_parsed(input)->Err_0)),
        ),
        run_ending(input) == Ending::Abort(
            Failure::Parse(json_error_text(json_parsed(input)->Err_0)),
        ),
{
}

/// A run on a JSON document always puts something out: the document as it
/// is printed after it was read as YAML, or the message of the failure.
pub proof fn law_json_input_is_answered(input: Seq<char>)
    requires
        json_parsed(input) is Ok,
    ensures
        run_ending(input) is Print,
        printed_yaml(input) is Ok ==> run_ending(input) == Ending::Print(printed_yaml(input)->Ok_0),
        yaml_parsed(input) is Ok && yaml_printed(yaml_parsed(input)->Ok_0) is Ok ==> run_ending(input)
            == Ending::Print(yaml_printed(yaml_parsed(input)->Ok_0)->Ok_0),
{
}

} // verus!
