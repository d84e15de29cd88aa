[package]
name = "ssg"
version = "0.1.0"
edition = "2021"
publish = false

[dependencies]
anyhow = "=1.0.104"
autumnus = { version = "=0.3.2", default-features = false }
blake3 = "=1.8.7"
chrono = { version = "=0.4.45", features = ["serde"] }
clap = { version = "=4.6.7", features = ["derive"] }
pulldown-cmark = "=0.9.6"
regex = "=1.13.1"
serde = { version = "=1.0.229", features = ["derive"] }
serde_json = "=1.0.154"
serde_yaml = "=0.9.34"
sha2 = "=0.10.9"
tera = "=1.20.1"
tree-sitter = "=0.25.10"
tree-sitter-bash = "=0.23.3"
tree-sitter-c = "=0.23.4"
tree-sitter-cpp = "=0.23.4"
tree-sitter-css = "=0.23.2"
tree-sitter-go = "=0.23.4"
tree-sitter-highlight = "=0.25.10"
tree-sitter-html = "=0.23.2"
tree-sitter-java = "=0.23.5"
tree-sitter-javascript = "=0.23.1"
tree-sitter-json = "=0.24.8"
tree-sitter-python = "=0.23.6"
tree-sitter-rust = "=0.24.2"
tree-sitter-typescript = "=0.23.2"
walkdir = "=2.5.0"
