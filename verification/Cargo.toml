[package]
name = "fuse_ring"
version = "0.1.0"
edition = "2021"
publish = false

[dependencies]
async-notify = "0.3"
bytes = "1"
futures-util = "0.3"
io-uring = "0.7"
libc = "0.2"
nix = { version = "0.29", features = ["socket", "uio"] }
tokio = { version = "1", features = ["process", "rt", "sync"] }
tracing = "0.1"
