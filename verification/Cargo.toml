[package]
name = "code_analyze"
version = "0.1.0"
edition = "2021"
publish = false

[dependencies]
lru = "*"
rayon = "*"
clap = { version = "*", features = ["derive"] }
tree-sitter = "*"
tree-sitter-go = "*"
tree-sitter-java = "*"
tree-sitter-javascript = "*"
tree-sitter-kotlin-ng = "*"
tree-sitter-python = "*"
tree-sitter-ruby = "*"
tree-sitter-rust = "*"
tree-sitter-swift = "*"
