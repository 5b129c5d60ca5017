[package]
name = "media_sync"
version = "0.1.0"
edition = "2021"
publish = false

[dependencies]
url = "*"
tokio = { version = "*", features = ["rt-multi-thread", "macros", "sync", "time", "io-util", "io-std"] }
tokio-tungstenite = "*"
futures-util = "*"
parking_lot = "*"
