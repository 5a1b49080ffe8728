[package]
name = "elastic_mem"
version = "0.1.0"
edition = "2021"
publish = false

[dependencies]
timerfd = "*"
libc = "*"
serde = { version = "*", features = ["derive"] }
serde_json = "*"
