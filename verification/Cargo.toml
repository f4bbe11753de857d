[package]
name = "edit"
version = "0.1.0"
edition = "2021"
publish = false

[dependencies]
anyhow = "1"
log = "0.4"
lsp-types = "0.95"
serde = { version = "1", features = ["derive"] }
serde_json = "1"
tokio = { version = "1", features = ["io-util", "macros", "process", "rt", "sync"] }
tree-sitter = "*"
tree-sitter-cpp = "*"
tree-sitter-highlight = "*"
tree-sitter-python = "*"
tree-sitter-rust = "*"
