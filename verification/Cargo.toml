[package]
name = "wings_rs"
version = "0.1.0"
edition = "2021"
publish = false

[dependencies]
uuid = { version = "=1.29.0", features = ["serde"] }
serde = { version = "=1.0.229", features = ["derive"] }
serde_json = "=1.0.154"
cron = "=0.17.0"
chrono = { version = "=0.4.45", features = ["serde"] }
chrono-tz = "=0.10.4"
rand = "=0.10.3"
tokio = { version = "=1.54.1", features = ["rt-multi-thread", "macros", "fs", "io-util", "time", "sync", "process"] }
tokio-util = { version = "=0.7.20", features = ["io", "io-util"] }
flate2 = { version = "=1.1.10", default-features = false, features = ["rust_backend"] }
bzip2 = "=0.6.1"
lz4 = "=1.28.1"
zstd = { version = "=0.14.3", features = ["zstdmt"] }
lzma-rust2 = "=0.25.0"
gzp = { version = "=2.0.4", default-features = false, features = ["deflate_rust"] }
anyhow = "=1.0.104"
sha2 = "=0.11.1"
tracing = "=0.1.44"
colored = "=3.1.1"
dialoguer = "=0.12.0"
reqwest = { version = "=0.13.5", default-features = false, features = ["json"] }
