[package]
name = "kidl"
version = "0.1.0"
edition = "2021"
publish = false

[dependencies]
rowan = "0.15"
ropey = "1"
unicode-ident = "1"
lsp-types = "0.95"
lsp-server = "0.7"
serde = { version = "1", features = ["derive"] }
serde_json = "1"
tracing = "0.1"
tracing-subscriber = "0.3"
clap = { version = "4", features = ["derive"] }
