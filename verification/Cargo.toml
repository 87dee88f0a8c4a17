[package]
name = "capture_resources"
version = "0.1.0"
edition = "2021"
publish = false

[dependencies]
cpal = "0.15"
lazy_static = "1.4"
log = "0.4"
num_cpus = "1"
scrap = "0.5"
tokio = { version = "1", features = ["rt", "macros"] }
