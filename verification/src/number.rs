//! Floating point numbers on their way from YAML to JSON.
//!
//! Such a number stays inside the values of `serde_yaml` and `serde_json`
//! all the way: this crate hands it from one to the other and learns only
//! whether JSON has a place for it.

use vstd::prelude::*;

verus! {

/// What `serde_json` makes of a YAML number read as floating point: the JSON
/// number of the same value, or nothing where the value is infinite or not a
/// number.
pub uninterp spec fn finite_number(n: serde_yaml::Number) -> Option<serde_json::Number>;

/// Reads `n` with `serde_yaml::Number::as_f64` and hands what comes out to
/// `serde_json::Number::from_f64`.
///
/// Trusted: the result depends on `n` alone.  What it is, is for the two
/// crates to say: the first call gives a value for every number, and the
/// second gives none exactly where that value is infinite or not a number.
#[verifier::external_body]
pub(crate) fn float_to_json(n: &serde_yaml::Number) -> (r: Option<serde_json::Number>)
    ensures
        r == finite_number(*n),
{
    n.as_f64().and_then(serde_json::Number::from_f64)
}

} // verus!
