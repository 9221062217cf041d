[package]
name = "jsonrpc_fdpass"
version = "0.1.0"
edition = "2021"
publish = false

[dependencies]
jsonrpsee = { version = "0.24", default-features = false, features = ["jsonrpsee-types"] }
rustix = { version = "0.38", features = ["net"] }
serde = { version = "1", features = ["derive"] }
serde_json = "1"
thiserror = "1"
tokio = { version = "1", features = ["net", "rt"] }
tracing = "0.1"
