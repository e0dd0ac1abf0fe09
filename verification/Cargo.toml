[package]
name = "rust_tcp_bench"
version = "0.1.0"
edition = "2021"
publish = false

[dependencies]
bytes = "1"
clap = "2"
futures = "0.3"
hdrhist = "*"
itertools = "0.10"
mio = { version = "0.8", features = ["os-poll", "net"] }
rand = "0.8"
tokio = { version = "1", features = ["full"] }
tokio-util = { version = "0.7", features = ["codec"] }
