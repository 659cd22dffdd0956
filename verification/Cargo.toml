[package]
name = "web3_proxy"
version = "0.1.0"
edition = "2021"
publish = false

[dependencies]
anyhow = "1"
axum = { version = "0.6", features = ["headers", "ws"] }
chrono = "0.4"
dashmap = "5"
derive_more = "0.99"
ethers = { version = "2", default-features = false }
flume = "0.10"
futures = "0.3"
hdrhistogram = "7"
http = "0.2"
hyper = "0.14"
ipnet = "2"
parking_lot = "0.12"
rand = "0.8"
reqwest = { version = "0.11", default-features = false }
rmp-serde = "1"
rust_decimal = "1"
serde = { version = "1", features = ["derive"] }
serde_json = "1"
tokio = { version = "1", features = ["macros", "rt", "rt-multi-thread", "sync", "time"] }
tokio-stream = { version = "0.1", features = ["sync"] }
tracing = "0.1"
ulid = "1"
uuid = "1"
