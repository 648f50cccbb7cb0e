//! The ways in which a conversion can fail.

use vstd::prelude::*;

verus! {

/// Why a document could not be converted.
#[derive(Debug, PartialEq)]
pub enum ConvertError {
    /// The text is not a document of the format it was read as.  Holds the
    /// parser's message.
    Parse(String),
    /// The YAML document is well formed, but its root is not a mapping.
    NonMappingTopLevel,
    /// A mapping has a key that is not a string.
    KeyType,
    /// A floating point number is infinite or not a number, and so has no
    /// place among JSON's numbers.
    NumericRange,
    /// The printer refused the tree.  Holds the printer's message.
    Serialize(String),
}

/// The mathematical value of a [`ConvertError`].
pub enum Failure {
    Parse(Seq<char>),
    NonMappingTopLevel,
    KeyType,
    NumericRange,
    Serialize(Seq<char>),
}

impl View for ConvertError {
    type V = Failure;

    open spec fn view(&self) -> Failure {
        match self {
            ConvertError::Parse(message) => Failure::Parse(message@),
            ConvertError::NonMappingTopLevel => Failure::NonMappingTopLevel,
            ConvertError::KeyType => Failure::KeyType,
            ConvertError::NumericRange => Failure::NumericRange,
            ConvertError::Serialize(message) => Failure::Serialize(message@),
        }
    }
}

impl Failure {
    /// True of the failures that stop a run at once; the printer's refusal is
    /// the one failure that is reported in place of the output instead.
    pub open spec fn is_fatal(self) -> bool {
        !(self is Serialize)
    }
}

/// What the text of a failure is, for each failure.
pub open spec fn failure_text(f: Failure) -> Seq<char> {
    match f {
        Failure::Parse(message) => message,
        Failure::NonMappingTopLevel => "the document is not a mapping"@,
        Failure::KeyType => "could not parse yaml key"@,
        Failure::NumericRange => "could not parse serde_json::Number"@,
        Failure::Serialize(message) => message,
    }
}

impl ConvertError {
    /// The text that tells a reader of this failure: the message of the
    /// parser or the printer where it has one, a fixed line where not.
    pub fn message(&self) -> (r: String)
        ensures
            r@ == failure_text(self@),
    {
        match self {
            ConvertError::Parse(message) => message.clone(),
            ConvertError::NonMappingTopLevel => "the document is not a mapping".to_owned(),
            ConvertError::KeyType => "could not parse yaml key".to_owned(),
            ConvertError::NumericRange => "could not parse serde_json::Number".to_owned(),
            ConvertError::Serialize(message) => message.clone(),
        }
    }
}

/// How a run ends.
#[derive(Debug, PartialEq)]
pub enum Outcome {
    /// Text for the output: the converted document, or the message of a
    /// failure that is reported in its place.
    Print(String),
    /// A failure that stops the run with no output.
    Abort(ConvertError),
}

/// The mathematical value of an [`Outcome`].
pub enum Ending {
    Print(Seq<char>),
    Abort(Failure),
}

impl View for Outcome {
    type V = Ending;

    open spec fn view(&self) -> Ending {
        match self {
            Outcome::Print(text) => Ending::Print(text@),
            Outcome::Abort(e) => Ending::Abort(e@),
        }
    }
}

} // verus!
