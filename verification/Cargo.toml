[package]
name = "netbench"
version = "0.1.0"
edition = "2021"
publish = false

[dependencies]
bincode = "1"
pnet = "*"
serde = { version = "1", features = ["derive"] }
serde_derive = "1"
toml = "*"
csv = "1"
chrono = "0.4"
ctrlc = "3"
fastping-rs = "*"
icmp-socket = "*"
