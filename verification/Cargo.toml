[package]
name = "hermod"
version = "0.1.0"
edition = "2021"
publish = false

[dependencies]
anyhow = "1"
async-trait = "0.1"
chrono = { version = "0.4", default-features = false, features = ["clock", "std"] }
hostname = "0.4"
indexmap = "2"
prometheus = { version = "0.13", default-features = false }
serde_json = "1"
tokio = { version = "1", features = ["sync"] }
tracing = "0.1"
