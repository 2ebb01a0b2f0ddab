[package]
name = "greengrass-sdk-rs"
version = "0.1.0"
edition = "2021"
publish = false

[dependencies]
serde = { version = "1", features = ["derive"] }
serde_json = { version = "1", features = ["raw_value"] }
uuid = { version = "1", features = ["serde"] }
tokio = { version = "1", features = ["net", "io-util", "rt", "sync"] }
tracing = "0.1"

[dev-dependencies]
crc = "3"
endi = "1"
