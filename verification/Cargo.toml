[package]
name = "jsontoyaml"
version = "0.1.0"
edition = "2021"
publish = false

[dependencies]
clap = "2"
serde_json = "1"
serde_yaml = "0.8"
