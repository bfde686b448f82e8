[package]
name = "ki"
version = "0.1.0"
edition = "2021"
publish = false

[dependencies]
anyhow = "=1.0.104"
blake3 = "=1.8.7"
crossbeam-channel = "=0.5.17"
crossterm = "=0.29.0"
debounce = "=0.2.2"
editorconfig-core = "=0.1.3"
fs4 = "=1.1.0"
itertools = "=0.15.0"
json-rpc-types = "=1.3.4"
libc = "=0.2.191"
log = "=0.4.35"
lsp-types = "=0.95.1"
ropey = "=1.6.1"
schemars = "=1.2.3"
serde = { version = "=1.0.229", features = ["derive"] }
serde_json = "=1.0.154"
tracing-log = "=0.2.0"
tracing-subscriber = "=0.3.23"
tree-sitter = "=0.27.1"
uuid = { version = "=1.29.0", features = ["v4"] }
which = "=8.0.6"

[dev-dependencies]
tree-sitter-rust = "*"
