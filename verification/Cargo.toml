[package]
name = "minicore"
version = "0.1.0"
edition = "2021"
publish = false

[dependencies]
fs4 = "0.13"
serde = { version = "1", features = ["derive"] }
thiserror = "2"
tokio = { version = "1", features = ["rt-multi-thread", "macros", "sync", "time"] }
tokio-util = { version = "0.7", features = ["rt"] }
