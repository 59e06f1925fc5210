[package]
name = "micromeasure"
version = "0.1.0"
edition = "2021"
publish = false

[dependencies]
libc = "0.2"
perf-event2 = "0.7"
serde = { version = "1", features = ["derive"] }
serde_json = "1"
sha2 = "0.10"
unicode-width = "0.2"
