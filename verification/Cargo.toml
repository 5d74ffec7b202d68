[package]
name = "gtraceroute"
version = "0.1.0"
edition = "2021"
publish = false

[dependencies]
nex-packet = "0.19.1"
rand = "=0.10.3"
socket2 = "=0.6.5"
futures = "=0.3.34"
tokio = { version = "=1.54.1", features = ["rt-multi-thread", "net", "time", "sync", "macros"] }
