[package]
name = "patcher"
version = "0.1.0"
edition = "2021"
publish = false

[dependencies]
log = "0.4"
reqwest = { version = "0.11", default-features = false }
serde = { version = "1", features = ["derive"] }
serde_repr = "0.1"
sha2 = "0.10"
tokio = { version = "1", features = ["macros", "time"] }
tokio-util = "0.7"
