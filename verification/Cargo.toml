[package]
name = "toml_lsp_core"
version = "0.1.0"
edition = "2021"
publish = false

[dependencies]
taplo = "*"
lsp-types = "*"
serde = { version = "*", features = ["derive"] }
serde_json = "*"
