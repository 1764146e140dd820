[package]
name = "dendrite"
version = "0.1.0"
edition = "2021"
publish = false

[dependencies]
anyhow = "1"
async-stream = "0.3"
bytes = "1"
env_logger = "0.11"
futures-core = "0.3"
futures-util = "0.3"
log = "0.4"
prost = "0.13"
tokio = { version = "1", features = ["macros", "rt-multi-thread", "sync", "time"] }
tonic = "0.12"
uuid = { version = "1", features = ["v4"] }
