[package]
name = "baml_language_server"
version = "0.1.0"
edition = "2021"
publish = false

[dependencies]
lsp-types = "0.95"
serde = { version = "1", features = ["derive"] }
serde_json = "1"
anyhow = "1"
