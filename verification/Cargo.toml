[package]
name = "tacit"
version = "1.0.0"
edition = "2021"
publish = false

[dependencies]
anyhow = "1"
async-trait = "0.1"
bytes = "1"
camino = "1"
clap = { version = "4", features = ["derive"] }
crossbeam-channel = "0.5"
ed25519-dalek = { version = "2", features = ["rand_core"] }
hex = "0.4"
hmac = "0.12"
keyring = "3"
loro = "1"
parking_lot = "0.12"
rand = "0.8"
rusqlite = { version = "0.32", features = ["bundled"] }
serde = { version = "1", features = ["derive"] }
serde_json = "1"
sha2 = "0.10"
snow = "0.10"
subtle = "2"
thiserror = "2"
tokio = { version = "1", features = ["rt-multi-thread", "sync", "time", "macros"] }
tracing = "0.1"
uniffi = "0.28"
uniffi_bindgen = "0.28"
zeroize = { version = "1", features = ["derive"] }
zstd = "0.13"
