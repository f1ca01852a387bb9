[package]
name = "mantle_core"
version = "0.1.0"
edition = "2021"
publish = false

[dependencies]
tiny-keccak = "=1.5.0"
serde = { version = "=1.0.229", features = ["derive"] }
serde_json = "=1.0.154"
proc-macro2 = "=1.0.107"
quote = "=1.0.47"
