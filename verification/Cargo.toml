[package]
name = "zax_workspace_service"
version = "0.1.0"
edition = "2021"
publish = false

[dependencies]
blake3 = "*"
serde_json = "*"
tree-sitter = "*"
tree-sitter-typescript = "*"
oxc_resolver = "*"
rusqlite = { version = "*", features = ["bundled"] }
ignore = "*"
notify = "*"

[dev-dependencies]
tempfile = "*"
