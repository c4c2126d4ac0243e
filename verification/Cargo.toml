[package]
name = "compositor_core"
version = "0.1.0"
edition = "2021"
publish = false

[dependencies]
anyhow = "=1.0.104"
futures = "=0.3.34"
memmap2 = "=0.9.12"
sendfd = { version = "=0.4.5", features = ["tokio"] }
tokio = { version = "=1.54.1", features = ["net", "io-util", "rt-multi-thread", "macros", "signal"] }
tracing = "=0.1.44"
tracing-subscriber = "=0.3.23"
