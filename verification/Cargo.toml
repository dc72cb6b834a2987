[package]
name = "serde_schema_derive"
version = "0.1.0"
edition = "2021"
publish = false

[dependencies]
proc-macro2 = "1"
quote = "1"
syn = "*"
serde_derive_internals = "*"
