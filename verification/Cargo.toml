[package]
name = "vexus_lite"
version = "0.1.0"
edition = "2021"
publish = false

[dependencies]
usearch = { version = "=2.26.6", default-features = false }
cxx = "=1.0.205"
napi = { version = "=2.16.17", features = ["napi4"] }
napi-derive = "=2.16.13"
rusqlite = "=0.41.0"
regex = "=1.13.1"
ignore = "=0.4.33"
pathdiff = "=0.2.3"
serde = { version = "=1.0.229", features = ["derive"] }
serde_json = "=1.0.154"
