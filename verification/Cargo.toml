[package]
name = "harnless"
version = "0.1.0"
edition = "2021"
publish = false

[dependencies]
serde = { version = "1", features = ["derive"] }
serde_json = "1"
serde_yaml = "0.9"
parking_lot = "0.12"
futures-lite = "2"
libc = "0.2"
tokio = { version = "1", features = ["rt", "sync", "time", "macros"] }
