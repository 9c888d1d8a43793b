[package]
name = "batch-upload"
version = "0.1.0"
edition = "2021"
publish = false

[dependencies]
async-trait = "0.1"
bytes = "1"
http = "1"
http-body = "1"
reqwest = { version = "0.12", default-features = false, features = ["stream"] }
reqwest-middleware = "0.4"
reqwest-tracing = "0.5"
serde_json = "1"
tempfile = "3"
tokio = { version = "1", features = ["fs", "rt", "time"] }
tracing = "0.1"
