[package]
name = "bicischools-core"
version = "0.1.0"
edition = "2021"
publish = false

[dependencies]
anyhow = "=1.0.104"
clap = { version = "=4.6.7", features = ["derive"] }
console_error_panic_hook = "=0.1.7"
console_log = "=1.1.0"
env_logger = "=0.11.11"
geo = { version = "=0.28.0", features = ["use-serde"] }
geojson = "=0.24.2"
log = "=0.4.35"
rand = "=0.8.8"
rstar = "=0.12.2"
serde = { version = "=1.0.229", features = ["derive"] }
serde_json = "=1.0.154"
wasm-bindgen = "=0.2.130"
