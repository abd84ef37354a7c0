[package]
name = "one-for-all"
version = "0.1.0"
edition = "2021"
publish = false

[dependencies]
accessibility-sys = "=0.2.0"
anyhow = "=1.0.104"
bincode = "=2.0.1"
core-foundation = "=0.10.1"
core-foundation-sys = "=0.8.7"
core-graphics = { version = "=0.25.0", features = ["highsierra"] }
dashmap = "=6.2.1"
dirs = "=5.0.1"
flate2 = "=1.1.10"
hdrhistogram = { version = "=7.6.0", default-features = false }
hex = "=0.4.3"
hmac = "=0.12.1"
libc = "=0.2.191"
objc2 = "=0.6.5"
objc2-app-kit = "=0.3.2"
objc2-foundation = "=0.3.2"
once_cell = "=1.21.4"
parking_lot = "=0.12.5"
regex = "=1.13.1"
schemars = "=0.8.22"
serde = { version = "=1.0.229", features = ["derive"] }
serde_json = "=1.0.154"
sha2 = "=0.10.9"
thiserror = "=1.0.69"
tokio = { version = "=1.54.1", features = ["full"] }
tracing = "=0.1.44"
tracing-appender = "=0.2.5"
tracing-subscriber = { version = "=0.3.23", features = ["env-filter", "json"] }
