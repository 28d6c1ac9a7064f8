[package]
name = "hal1210"
version = "0.1.0"
edition = "2021"
publish = false

[dependencies]
tokio-util = { version = "=0.7.20", features = ["codec"] }
uuid = { version = "=1.29.0", features = ["v4", "serde"] }
smart-leds = "=0.4.0"
tokio = { version = "1", features = ["rt-multi-thread", "macros", "net", "sync", "time", "io-util", "signal"] }
futures = "0.3"
serde = { version = "1", features = ["derive"] }
serde_bytes = "0.11"
rmp-serde = "1"
serde_json = "1"
thiserror = "2"
tracing = "0.1"
tracing-subscriber = { version = "0.3", features = ["env-filter"] }
color-eyre = "0.6"
ratatui = "=0.30.2"
crossterm = { version = "=0.29.0", features = ["event-stream"] }
tokio-serial = { version = "5", default-features = false }
ash = "=0.38.0"
libc = "0.2"
calloop = "=0.14.5"
calloop-wayland-source = "=0.4.1"
wayland-client = "=0.31.15"
wayland-protocols = { version = "=0.32.13", features = ["client", "staging", "unstable"] }
wayland-protocols-wlr = { version = "=0.3.12", features = ["client"] }
gbm = { version = "=0.18.0", default-features = false }
udev = "0.9"
cec-rs = "=12.0.2"
