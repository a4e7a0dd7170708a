[package]
name = "stable_vfs"
version = "0.1.0"
edition = "2021"
publish = false

[dependencies]
ic-stable-structures = "=0.7.2"
hex = "=0.4.3"
candid = "=0.10.39"
ic-cdk = "=0.20.3"
ic-wasi-polyfill = "=0.13.0"
rusqlite = { version = "=0.40.2", default-features = false, features = ["cache", "fallible_uint"] }
serde = { version = "=1.0.229", features = ["derive"] }
serde_json = "=1.0.154"
canbench-rs = "=0.7.0"
