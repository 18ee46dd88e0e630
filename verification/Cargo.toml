[package]
name = "hwmon"
version = "0.1.0"
edition = "2021"
publish = false

[dependencies]
anyhow = "1"
clap = "4"
hex = "0.4"
serialport = { version = "4", default-features = false }
tokio = { version = "1", features = ["full"] }
zmq = "0.10"
