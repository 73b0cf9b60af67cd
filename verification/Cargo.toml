[package]
name = "matrix-mqtt-bridge"
version = "0.1.0"
edition = "2021"
publish = false

[dependencies]
anyhow = "=1.0.104"
clap = { version = "=4.6.7", features = ["derive", "env"] }
kagiyama = "=0.3.0"
lazy_static = "=1.5.1"
log = "=0.4.35"
matrix-sdk = { version = "=0.6.2", default-features = false, features = ["sled", "e2e-encryption", "rustls-tls"] }
mqtt-channel-client = { version = "=0.6.0", features = ["metrics"] }
paho-mqtt = { version = "=0.12.5", default-features = false, features = ["bundled"] }
serde = { version = "=1.0.229", features = ["derive"] }
serde_json = "=1.0.154"
strum = "=0.24.1"
strum_macros = "=0.24.3"
tokio = { version = "=1.54.1", features = ["macros", "rt-multi-thread", "signal", "sync", "time"] }
tracing-subscriber = "=0.3.23"
