[package]
name = "hookcov"
version = "0.1.0"
edition = "2021"
publish = false

[dependencies]
serde = { version = "*", features = ["derive"] }
serde_json = "*"
tree-sitter = "*"
tree-sitter-rust = "*"
tree-sitter-java = "*"
