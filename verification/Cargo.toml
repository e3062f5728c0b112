[package]
name = "orderbook_aggregator"
version = "0.1.0"
edition = "2021"
publish = false

[dependencies]
async-trait = "0.1"
clap = { version = "4", features = ["derive"] }
error-stack = "0.3"
fastwebsockets = { version = "0.4", features = ["upgrade"] }
gjson = "0.8"
hyper = { version = "0.14", features = ["full"] }
prost = "0.11"
rust_decimal = "1"
serde_json = "1"
strum = { version = "0.24", features = ["derive"] }
tikv-jemallocator = "0.5"
tokio = { version = "1", features = ["full"] }
tokio-rustls = "0.24"
tokio-stream = "0.1"
tonic = "0.9"
tracing = "0.1"
tracing-subscriber = "0.3"
webpki-roots = "0.22"
