[package]
name = "portal"
version = "0.1.0"
edition = "2021"
publish = false

[dependencies]
serde = { version = "1.0.229", features = ["derive"] }
thiserror = "1.0.69"
tokio = { version = "1", features = ["time", "rt", "macros"] }
