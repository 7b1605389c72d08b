[package]
name = "hybrid_gauge"
version = "0.1.0"
edition = "2021"
publish = false

[dependencies]
confy = "0.6"
libloading = "0.8"
nvml-wrapper = "0.10"
serde = { version = "1", features = ["derive"] }
serde_json = "1"
sysinfo = "0.32"
ureq = "2"
wmi = "0.14"
