[package]
name = "hiroz"
version = "0.1.0"
edition = "2021"
publish = false

[dependencies]
arc-swap = "1"
byteorder = "1"
thiserror = "*"
tokio = { version = "1", features = ["rt", "rt-multi-thread", "sync", "time", "macros"] }
tokio-util = "0.7"
tracing = "0.1"
zenoh = { version = "1", default-features = false, features = ["transport_tcp", "unstable"] }
zenoh-buffers = { version = "1" }
zenoh-ext = { version = "1", default-features = false, features = ["unstable"] }
