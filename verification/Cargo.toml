[package]
name = "pi_runtime"
version = "0.1.0"
edition = "2021"
publish = false

[dependencies]
serde_json = "=1.0.154"
tokio = { version = "=1.54.1", features = ["sync", "time", "rt", "macros"] }
futures = "=0.3.34"
async-trait = "=0.1.92"
