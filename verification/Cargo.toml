[package]
name = "snapshot_hash"
version = "0.1.0"
edition = "2021"
publish = false

[dependencies]
num-bigint = "0.4"
hex = "0.4"
blake3 = { version = "1", features = ["pure"] }
serde = { version = "1", features = ["derive"] }
serde_json = "1"
toml = "0.8"
async-trait = "0.1"
tracing = "0.1"
sqlx = { version = "0.8", default-features = false, features = ["postgres"] }
