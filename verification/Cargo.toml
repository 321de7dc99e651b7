[package]
name = "quic_core"
version = "0.1.0"
edition = "2021"
publish = false

[dependencies]
rand = "=0.8.8"
tokio = { version = "=1.53.2", features = ["rt", "macros", "time", "sync", "io-util"] }
futures-util = { version = "=0.3.34", features = ["io"] }
futures-channel = "0.3"
anyhow = "1"
structopt = "0.3"
tracing = "0.1"
tracing-subscriber = "0.3"
bytes = "1"
thiserror = "1"
