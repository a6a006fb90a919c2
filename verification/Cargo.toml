[package]
name = "ctutils"
version = "0.1.0"
edition = "2021"
publish = false

[dependencies]
cmov = "=0.5.4"
subtle = "=2.6.1"
const-oid = "=0.10.2"
byte-tools = "=0.3.1"
proc-macro2 = "1"
quote = "1"
syn = { version = "1", features = ["full", "extra-traits"] }
synstructure = "0.12"
