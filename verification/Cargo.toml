[package]
name = "acom"
version = "0.1.0"
edition = "2021"
publish = false

[dependencies]
libc = "0.2"
pin-project-lite = "0.2"
tracing = "0.1"
tracing-subscriber = { version = "0.3", features = ["env-filter", "fmt"] }
