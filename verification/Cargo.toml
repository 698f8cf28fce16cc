[package]
name = "haiku_fh"
version = "0.1.0"
edition = "2021"
publish = false

[dependencies]
smallvec = "1"
simd-json = "0.15"
serde_json = "1"
serde = { version = "1", features = ["derive"] }
thiserror = "1"
tokio = { version = "1", features = ["full"] }
tokio-tungstenite = "0.27"
futures = "0.3"
tracing = "0.1"
clap = { version = "4", features = ["derive"] }
config = "0.15"
