[package]
name = "qt_rust_demo"
version = "0.1.0"
edition = "2021"
publish = false

[dependencies]
async-trait = "0.1"
rand = "0.8"
rusqlite = { version = "0.31", features = ["bundled"] }
serde_json = "1"
thiserror = "1"
tokio = { version = "1", features = ["sync", "rt", "rt-multi-thread", "time", "macros"] }
tracing = "0.1"
