[package]
name = "loadhub"
version = "0.1.0"
edition = "2021"
publish = false

[dependencies]
anyhow = "1"
async-tungstenite = { version = "0.17", features = ["tokio-runtime"] }
futures = "0.3"
futures-intrusive = "0.5"
hdrhistogram = "7"
headers = "0.3"
hostname = "0.3"
hyper = { version = "0.14", features = ["client", "http1", "http2", "tcp"] }
hyper-rustls = { version = "0.24", features = ["http2"] }
mime_guess = "2"
rand = "0.8"
serde = { version = "1", features = ["derive"] }
serde_json = "1"
slog = "2"
slog-async = "2"
slog-term = "2"
tokio = { version = "1", features = ["full"] }
tokio-stream = { version = "0.1", features = ["sync"] }
tungstenite = "0.17"
url = "2"
urlencoding = "2"
uuid = { version = "1", features = ["v4"] }
warp = "0.3"
