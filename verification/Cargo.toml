[package]
name = "variant_bridge"
version = "0.1.0"
edition = "2021"
publish = false

[dependencies]
serde = { version = "=1.0.229", features = ["derive"] }
quote = "=1.0.47"
proc-macro2 = "=1.0.107"

[dev-dependencies]
serde_json = "1"
