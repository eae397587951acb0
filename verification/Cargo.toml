[package]
name = "dangle"
version = "0.6.0"
edition = "2021"
publish = false

[dependencies]
tree-sitter = "*"
streaming-iterator = "*"
tree-sitter-bash = "*"
tree-sitter-c-sharp = "*"
tree-sitter-go = "*"
tree-sitter-java = "*"
tree-sitter-javascript = "*"
tree-sitter-kotlin-ng = "*"
tree-sitter-lua = "*"
tree-sitter-php = "*"
tree-sitter-python = "*"
tree-sitter-ruby = "*"
tree-sitter-rust = "*"
tree-sitter-typescript = "*"
anyhow = "*"
clap = { version = "*", features = ["derive"] }
