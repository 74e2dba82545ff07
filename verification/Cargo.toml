[package]
name = "rumble"
version = "0.1.0"
edition = "2021"
publish = false

[dependencies]
anyhow = "1"
bytes = "1"
clap = { version = "4", features = ["derive"] }
dashmap = "5"
ipnet = "2"
libc = "0.2"
once_cell = "1"
quinn = "0.10"
rustls = "0.21"
socket2 = "0.5"
tokio = { version = "1", features = ["rt-multi-thread", "macros", "time", "io-util", "sync", "net", "fs"] }
tracing = "0.1"
tun = { version = "0.6", features = ["async"] }
