[package]
name = "posh"
version = "0.1.0"
edition = "2021"
publish = false

[dependencies]
async-std = "1"
futures = { version = "0.3", features = ["thread-pool"] }
intrusive-collections = "0.9"
libc = "0.2"
parking_lot = "0.12"
seqlock = "*"
tokio = { version = "1", features = ["sync"] }
winapi = { version = "0.3", features = ["synchapi"] }
