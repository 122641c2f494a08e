[package]
name = "zengit_core"
version = "0.1.0"
edition = "2021"
publish = false

[dependencies]
tokio-util = "0.7"
tokio = { version = "1", features = ["full"] }
serde = { version = "1", features = ["derive"] }
serde_json = "1"
serde_repr = "0.1"
