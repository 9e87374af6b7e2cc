[package]
name = "launch-pad"
version = "0.1.0"
edition = "2021"
publish = false

[dependencies]
libc = "0.2"
log = "0.4"
rand = "0.9"
rustix = { version = "1", features = ["io_uring", "process"] }
slotmap = "1"
sync_wrapper = { version = "1", features = ["futures"] }
thiserror = "2"
tokio = { version = "1", features = ["io-util", "macros", "process", "rt-multi-thread", "sync", "time"] }
tokio-util = "0.7"
