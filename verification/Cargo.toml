[package]
name = "xdp_telemetry"
version = "0.1.0"
edition = "2021"
publish = false

[dependencies]
getopts = "*"
libc = "*"
tokio = { version = "*", features = ["rt", "time", "signal", "macros"] }
