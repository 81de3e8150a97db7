[package]
name = "perseus"
version = "0.1.0"
edition = "2021"
publish = false

[dependencies]
serde = { version = "1", features = ["derive"] }
serde_json = { version = "1", features = ["raw_value"] }
fmterr = "0.1"
sycamore = { version = "0.8", features = ["suspense"] }
sycamore-router = "0.8"
