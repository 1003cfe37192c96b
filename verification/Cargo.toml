[package]
name = "moqtail"
version = "0.1.0"
edition = "2021"
publish = false

[dependencies]
anyhow = "1"
base64 = "0.22"
bytes = "1"
clap = { version = "4", features = ["derive"] }
ffmpeg-next = "*"
moka = { version = "0.12", features = ["future"] }
mp4 = "*"
serde_json = "1"
tokio = { version = "1", features = ["full"] }
tokio-util = "0.7"
tracing = "0.1"
tracing-subscriber = { version = "0.3", features = ["env-filter"] }
wtransport = { version = "*", features = ["quinn", "dangerous-configuration"] }
