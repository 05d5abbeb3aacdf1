[package]
name = "typed_api"
version = "0.1.0"
edition = "2021"
publish = false

[dependencies]
openapiv3 = "0.3"
indexmap = "1"
serde_json = "1"
