[package]
name = "typed_key"
version = "0.1.0"
edition = "2021"
publish = false

[dependencies]
tree-sitter = "*"
tree-sitter-typescript = "*"
serde_json = "*"
walkdir = "*"
