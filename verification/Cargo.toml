[package]
name = "bridge"
version = "0.1.0"
edition = "2021"
publish = false

[dependencies]
anyhow = "=1.0.104"
bincode = "=1.3.3"
clap = { version = "=4.6.7", features = ["derive"] }
cpal = "=0.15.3"
crossbeam-channel = "=0.5.17"
hex = "=0.4.3"
libc = "=0.2.191"
metal = "=0.33.0"
objc2 = "=0.6.5"
objc2-app-kit = "=0.3.2"
objc2-foundation = "=0.3.2"
objc2-quartz-core = "=0.3.2"
parking_lot = "=0.12.5"
quinn = "=0.11.12"
rcgen = "=0.13.2"
rustls = { version = "=0.23.46", features = ["ring"] }
screencapturekit = { version = "=11.1.2", features = ["macos_14_0"] }
sha2 = "=0.10.9"
thiserror = "=1.0.69"
tokio = { version = "=1.54.1", features = ["full"] }
tracing = "=0.1.44"
tracing-subscriber = { version = "=0.3.23", features = ["env-filter"] }
x11rb = { version = "=0.13.2", features = ["shm"] }
