//! Conversion between JSON and YAML documents.
//!
//! The heart of the crate is the remapping of a mapping-rooted YAML tree into
//! a JSON tree, in which booleans and null become strings.  Parsing and
//! printing are left to `serde_yaml` and `serde_json`.

pub mod codec;
pub mod convert;
pub mod error;
pub mod json;
pub mod number;
pub mod remap;
pub mod yaml;
