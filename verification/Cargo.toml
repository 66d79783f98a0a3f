[package]
name = "rholang_lsp"
version = "0.1.0"
edition = "2021"
publish = false

[dependencies]
tree-sitter = "0.25"
tower-lsp = "0.20"
dashmap = "6"
tokio = { version = "1", features = ["io-std", "macros", "rt-multi-thread"] }
clap = { version = "4", features = ["derive"] }
env_logger = "0.11"
log = "0.4"

[dev-dependencies]
tree-sitter-json = "*"
