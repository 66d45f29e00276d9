[package]
name = "lbproxy"
version = "0.1.0"
edition = "2021"
publish = false

[dependencies]
rand = "0.8"
tokio = { version = "1", features = ["net", "io-util", "rt-multi-thread", "macros", "sync", "time"] }
notify = "6"
toml = "0.8"
serde = { version = "1", features = ["derive"] }
