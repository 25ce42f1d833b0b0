[package]
name = "native_targets"
version = "0.1.0"
edition = "2021"
publish = false

[dependencies]
anyhow = "1"
cargo-platform = "=0.3.3"
cargo-util = ">=0.2.14, <0.2.26"
cargo-util-schemas = "0.11"
serde = { version = "1", features = ["derive"] }
serde_json = "1"
tracing = "0.1"
walkdir = "2"
