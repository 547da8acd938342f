[package]
name = "mapfile_parser"
version = "0.1.0"
edition = "2021"
publish = false

[dependencies]
regex = "1"
serde = { version = "1", features = ["derive"] }
serde_json = "1"
objdiff-core = { version = "2", default-features = false, features = ["bindings"] }
