[package]
name = "autoblur"
version = "0.1.0"
edition = "2021"
publish = false

[dependencies]
anyhow = "1"
async-trait = "0.1"
async-tungstenite = { version = "*", features = ["tokio-runtime"] }
chromiumoxide = { version = "*", default-features = false, features = ["tokio-runtime"] }
chrono = { version = "0.4", features = ["serde"] }
ethers = { version = "2", default-features = false }
futures = "0.3"
rand = "0.8"
regex = "1"
rust_decimal = { version = "1", features = ["serde-with-str"] }
serde = { version = "1", features = ["derive"] }
serde_json = "1"
thiserror = "1"
tokio = { version = "1", features = ["rt-multi-thread", "macros", "fs", "time", "sync", "net"] }
tokio-rustls = { version = "*", default-features = false }
toml = "*"
tracing = "0.1"
tracing-subscriber = { version = "0.3", default-features = false, features = ["fmt", "std"] }
