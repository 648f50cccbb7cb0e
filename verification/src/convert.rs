//! The two directions of conversion.

pub mod json_to_yaml;
pub mod yaml_to_json;
