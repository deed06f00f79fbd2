[package]
name = "loramesh"
version = "0.1.0"
edition = "2021"
publish = false

[dependencies]
petgraph = "0.5"
hex = "0.4"
packet = "0.1"
rand = "0.7"
crossbeam-channel = "0.4"
ratelimit_meter = "5"
tun-tap = "0.1"
serialport = "3"
config = "0.10"
serde = { version = "1", features = ["derive"] }
log = "0.4"
simplelog = "0.7"
nonzero_ext = "0.2"
