[package]
name = "weather_mon"
version = "0.1.0"
edition = "2021"
publish = false

[dependencies]
anyhow = "1"
chrono = { version = "0.4", default-features = false, features = ["clock"] }
env_logger = "0.11"
iana-time-zone = "0.1"
log = "0.4"
reqwest = { version = "0.12", default-features = false, features = ["rustls-tls"] }
rustix = { version = "1", features = ["net", "fs"] }
sd-listen-fds = "*"
serde = { version = "1", features = ["derive"] }
serde_json = "1"
tokio = { version = "1", features = ["full"] }
tokio-stream = "0.1"
tokio-util = { version = "0.7", features = ["codec"] }

[dev-dependencies]
rand = "0.9"
