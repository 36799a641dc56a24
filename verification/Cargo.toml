[package]
name = "coap_observe"
version = "0.1.0"
edition = "2021"
publish = false

[dependencies]
anyhow = "1"
async-trait = "0.1"
coap-lite = "0.11"
futures = "0.3"
log = "0.4"
thiserror = "1"
tokio = { version = "1", features = ["rt", "sync", "time"] }
tokio-stream = { version = "0.1", features = ["time"] }
