[package]
name = "workspaceos"
version = "0.1.0"
edition = "2021"
publish = false

[dependencies]
blake3 = { version = "1", features = ["pure"] }
ignore = "0.4"
tree-sitter = "0.22"
tree-sitter-rust = "0.21"
tree-sitter-typescript = "0.21"
rusqlite = { version = "0.31", features = ["bundled"] }
tantivy = "0.22"
notify = "6"
notify-debouncer-full = "0.3"
tokio = { version = "1", features = ["full"] }
serde = { version = "1", features = ["derive"] }
serde_json = "1"
tracing = "0.1"
