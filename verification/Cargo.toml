[package]
name = "rivulet-core"
version = "0.1.0"
edition = "2021"
publish = false

[dependencies]
serde = { version = "=1.0.229", features = ["derive"] }
serde_json = "=1.0.154"
toml = "=1.1.8"
uuid = { version = "=1.29.0", features = ["v4", "serde"] }
keyring = "=3.6.3"
ureq = "=3.5.1"
async-trait = "=0.1.92"
wasmtime = "=36.0.20"
