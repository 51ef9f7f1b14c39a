[package]
name = "snips-nlu-ontology-parsers-ffi-macros"
version = "0.1.0"
edition = "2021"
publish = false

[dependencies]
failure = "0.1"
libc = "0.2"
serde_json = "1.0"
