[package]
name = "clarity"
version = "0.1.0"
edition = "2021"
publish = false

[dependencies]
uuid = { version = "1", features = ["v4", "serde"] }
serde = { version = "1", features = ["derive"] }
serde_json = "1"
tokio = { version = "1", features = ["rt-multi-thread", "macros", "net", "sync", "time"] }
tokio-tungstenite = "*"
futures-util = { version = "0.3", features = ["sink"] }
str0m = "0.19"
opus = "0.3"
cpal = "0.17"
iced = { version = "=0.14.0", default-features = false, features = ["tiny-skia", "tokio"] }
