[package]
name = "ptp_trace"
version = "0.1.0"
edition = "2021"
publish = false

[dependencies]
anyhow = "1"
clap = { version = "4", features = ["derive"] }
hifitime = { version = "*", default-features = false, features = ["std"] }
if-addrs = "*"
pcap-file = "*"
pnet = "*"
ratatui = "*"
socket2 = "*"
tokio = { version = "1", features = ["rt-multi-thread", "macros", "sync", "time"] }
