[package]
name = "rustimate"
version = "0.1.0"
edition = "2021"
publish = false

[dependencies]
tree-sitter = "=0.25.10"
tower-lsp = "=0.20.0"
tokio = { version = "1", features = ["macros", "rt-multi-thread", "io-std"] }
dashmap = "6"

[dev-dependencies]
tree-sitter-rust = "*"
