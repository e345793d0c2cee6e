[package]
name = "reliable_udp"
version = "0.1.0"
edition = "2021"
publish = false

[dependencies]
arc-swap = "1"
async-channel = "2"
async-trait = "0.1"
bytes = "1"
crossbeam-queue = "0.3"
num_cpus = "1"
rand = "0.9"
rayon = "1"
thiserror = "2"
tokio = { version = "1", features = ["full"] }
tracing = "0.1"
wide = "0.7"
