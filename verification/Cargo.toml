[package]
name = "kata_device_plugin"
version = "0.1.0"
edition = "2021"
publish = false

[dependencies]
anyhow = "=1.0.104"
container-device-interface = "=1.1.1"
futures = "0.3"
hyper-util = { version = "0.1", features = ["tokio"] }
pcilibs-rs = "=0.1.0"
prost = "0.14"
serde = { version = "1", features = ["derive"] }
serde_yaml = "=0.9.34"
tokio = { version = "1", features = ["fs", "macros", "net", "rt-multi-thread", "signal", "sync", "time"] }
tokio-stream = { version = "0.1", features = ["net"] }
tokio-util = "0.7"
toml = "0.9"
tonic = "=0.14.9"
tonic-prost = "=0.14.9"
tower = "0.5"
tracing = "0.1"
tracing-subscriber = { version = "0.3", features = ["env-filter"] }
