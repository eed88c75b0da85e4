[package]
name = "hwbp"
version = "0.1.0"
edition = "2021"
publish = false

[dependencies]
anyhow = "*"
clap = { version = "*", features = ["derive"] }
libbpf-rs = "*"
libc = "*"
perf-event-open-sys = "*"
plain = "*"
