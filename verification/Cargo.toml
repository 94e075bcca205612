[package]
name = "greengrass"
version = "0.1.0"
edition = "2021"
publish = false

[dependencies]
anyhow = "1"
aws-iot-device-sdk = "*"
aws-sdk-greengrassv2 = { version = "*", default-features = false }
aws-sdk-iot = { version = "*", default-features = false }
bytes = "1"
dashmap = "5"
once_cell = "1"
reqwest = { version = "*", default-features = false }
rumqttc = { version = "*", default-features = false }
serde = { version = "1", features = ["derive"] }
serde_json = "1"
tokio = { version = "1", features = ["sync", "time", "rt", "macros"] }
tracing = "0.1"
