[package]
name = "agentic-sandbox"
version = "0.1.0"
edition = "2021"
publish = false
rust-version = "1.95"

[dependencies]
anyhow = "=1.0.104"
chrono = { version = "=0.4.45", features = ["serde"] }
redb = "=4.4.0"
serde = { version = "=1.0.229", features = ["derive"] }
serde_json = "=1.0.154"
serde_yaml = "=0.9.34"
tempfile = "=3.27.0"
tiny_http = "=0.12.0"
toml = "=1.1.8"
ureq = "=2.12.1"
wasmtime = "=46.0.3"
wasmtime-wasi = "=46.0.3"
