[package]
name = "webrtc_relay"
version = "0.1.0"
edition = "2021"
publish = false

[dependencies]
speedometer = "*"
num_cpus = "1"
serde = { version = "1", features = ["derive"] }
serde_derive = "1"
serde_json = "1"
structopt = "0.3"
paw = "1"
anyhow = "1"
futures = "0.3"
tokio = { version = "1", features = ["full"] }
tracing = "0.1"
warp = "0.3"
gstreamer = "0.21"
gstreamer-sdp = "0.21"
gstreamer-webrtc = "0.21"
ansi_term = "0.12"
