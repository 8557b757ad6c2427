[package]
name = "cft_tcp"
version = "0.1.0"
edition = "2021"
publish = false

[dependencies]
etherparse = "0.13"
tun-tap = { version = "0.1", default-features = false }
color-eyre = "0.6"
tracing = "0.1"
tracing-subscriber = "0.3"
clap = { version = "4", features = ["derive"] }
cmd_lib = "*"
