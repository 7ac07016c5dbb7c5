[package]
name = "reedline_lsp"
version = "0.1.0"
edition = "2021"
publish = false

[dependencies]
crossbeam = "0.8"
itertools = "0.13"
lsp-types = "0.97"
nu-ansi-term = "0.50"
serde = { version = "1", features = ["derive"] }
serde_json = "1"
strip-ansi-escapes = "0.2"
unicode-width = "0.2"
