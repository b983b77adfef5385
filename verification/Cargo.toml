[package]
name = "kalico_motion"
version = "0.1.0"
edition = "2021"
publish = false

[dependencies]
arc-swap = "1"
crossbeam-channel = "0.5"
indexmap = "2"
libc = "0.2"
serde_json = "1"
thiserror = "2"
tracing = "0.1"
