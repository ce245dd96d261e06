[package]
name = "s7client"
version = "0.1.0"
edition = "2021"
publish = false

[dependencies]
bytes = "1"
log = "0.4"
serde = { version = "1", features = ["derive"] }
thiserror = "1"
tokio = { version = "1", features = ["net", "time", "io-util", "rt-multi-thread", "macros"] }
tokio-util = { version = "0.7", features = ["codec"] }
