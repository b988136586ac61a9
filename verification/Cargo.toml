[package]
name = "gaze"
version = "0.1.0"
edition = "2021"
publish = false

[dependencies]
fasthash = "0.4"
rand = "0.7"
serde_json = "1"
avro-rs = "0.13"
serde = { version = "1", features = ["derive"] }
tokio = { version = "1", features = ["full"] }
futures = "0.3"
async-trait = "0.1"
