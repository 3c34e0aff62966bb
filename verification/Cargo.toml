[package]
name = "single-ion"
version = "0.1.0"
edition = "2021"
publish = false

[dependencies]
anyhow = "=1.0.104"
figment = { version = "0.10", features = ["yaml"] }
ico = "=0.6.0"
image = { version = "=0.25.10", default-features = false, features = ["png"] }
libc = "=0.2.191"
rust-embed = { version = "=8.13.0", features = ["debug-embed"] }
tao = "=0.37.2"
tokio = { version = "=1.54.1", features = ["macros", "rt-multi-thread", "signal", "time"] }
tracing = "=0.1.44"
tracing-subscriber = { version = "=0.3.23", features = ["env-filter"] }
winresource = "=0.1.34"
wry = "=0.57.1"
