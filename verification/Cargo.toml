[package]
name = "proof-service"
version = "0.1.0"
edition = "2021"
publish = false

[dependencies]
anyhow = "1"
bincode = "1.3"
ethers = { version = "2", default-features = false }
hex = "0.4"
lazy_static = "1"
lru = "0.12"
once_cell = "1"
parking_lot = "0.12"
serde = { version = "1", features = ["derive"] }
serde_json = "1"
sha2 = "0.10"
tokio = { version = "1", features = ["macros", "rt", "sync", "time"] }
tonic = { version = "0.9", default-features = false, features = ["codegen"] }
tracing = "0.1"
uuid = { version = "1", features = ["v4"] }
zstd = "0.13"
