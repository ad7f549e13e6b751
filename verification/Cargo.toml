[package]
name = "dist"
version = "0.1.0"
edition = "2021"
publish = false

[dependencies]
bincode = "=1.3.3"
flatbuffers = "=0.8.4"
redis = "*"
serde = { version = "1", features = ["derive"] }
config = { version = "*", default-features = false, features = ["toml"] }
log = "0.4"
env_logger = "*"
failure = "0.1"
derive_more = { version = "*", features = ["from"] }
syn = { version = "2", features = ["full"] }
quote = "1"
proc-macro2 = "1"
flatc-rust = "*"
nalgebra = "*"
tokio = { version = "1", features = ["rt", "rt-multi-thread", "net", "time", "sync"] }
futures = "0.3"
tarpc = { version = "*", features = ["full"] }
