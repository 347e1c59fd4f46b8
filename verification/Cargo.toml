[package]
name = "csi_ingest"
version = "0.1.0"
edition = "2021"
publish = false

[dependencies]
dashmap = "*"
inflate = "*"
ringbuffer = "*"
prost = { version = "*", default-features = false, features = ["std"] }
influxdb = { version = "*", features = ["derive"] }
ndarray = "*"
ndarray-stats = "*"
num_cpus = "*"
socket2 = "*"
tokio = { version = "*", features = ["full"] }
toml = "*"
serde = { version = "*", features = ["derive"] }
thiserror = "*"
