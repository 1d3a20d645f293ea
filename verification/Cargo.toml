[package]
name = "fed"
version = "0.1.0"
edition = "2021"
publish = false

[dependencies]
anyhow = "=1.0.104"
crossterm = "=0.27.0"
dirs = "=5.0.1"
once_cell = "=1.21.4"
palette = "=0.7.7"
plist = "=1.10.3"
serde = { version = "=1.0.229", features = ["derive"] }
serde_jsonrc = "=0.1.0"
thiserror = "=1.0.69"
toml = "=0.8.23"
tree-sitter-highlight = "=0.20.1"
tree-sitter-rust = "=0.20.4"

[dev-dependencies]
tree-sitter-javascript = "=0.20.1"
