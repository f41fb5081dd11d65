[package]
name = "ytflow"
version = "0.1.0"
edition = "2021"
publish = false

[dependencies]
lru = "*"
serde = { version = "*", features = ["derive"] }
serde_bytes = "*"
tokio = { version = "*", features = ["rt", "sync", "time", "net", "macros"] }
futures = "*"
async-trait = "*"
parking_lot = "*"
trust-dns-resolver = "*"

[dev-dependencies]
smoltcp = "*"
