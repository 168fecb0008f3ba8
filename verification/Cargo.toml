[package]
name = "doc_ingest"
version = "0.1.0"
edition = "2021"
publish = false

[dependencies]
anyhow = "1"
async-trait = "0.1"
bytes = "1"
itertools = "=0.10.5"
rusoto_core = { version = "=0.48.0", default-features = false, features = ["rustls"] }
rusoto_kinesis = { version = "=0.48.0", default-features = false, features = ["rustls"] }
serde_json = "1"
thiserror = "1"
tokio = { version = "1", features = ["sync", "time"] }
tracing = "0.1"
warp = { version = "0.3", default-features = false }
