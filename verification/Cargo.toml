[package]
name = "butterfly"
version = "0.1.0"
edition = "2021"
publish = false

[dependencies]
libafl = "=0.16.1"
libafl_bolts = "=0.16.1"
pcap = "=2.5.0"
serde = { version = "=1.0.229", features = ["derive"] }
