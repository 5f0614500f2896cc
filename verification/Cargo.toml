[package]
name = "govee2mqtt"
version = "0.1.0"
edition = "2021"
publish = false

[dependencies]
anyhow = "=1.0.104"
data-encoding = "=2.11.1"
serde = { version = "=1.0.229", features = ["derive"] }
serde_json = "=1.0.154"
chrono = { version = "=0.4.45", features = ["serde"] }
clap = { version = "=4.6.7", features = ["derive"] }
tokio = { version = "=1.54.1", features = ["rt-multi-thread", "macros", "net", "time", "sync"] }
log = "=0.4.35"
env_logger = "=0.10.2"
uuid = { version = "=1.29.0", features = ["v4", "v5"] }
reqwest = { version = "=0.12.28", default-features = false, features = ["json", "rustls-tls"] }
if-addrs = "=0.13.4"
dirs-next = "=2.0.0"
csscolorparser = "=0.6.2"
mosquitto-rs = "=0.11.2"
async-channel = "=2.5.0"
axum = "=0.8.9"
tower-http = { version = "=0.6.11", features = ["fs"] }
p12 = "=0.6.3"
sqlite-cache = "=0.1.4"
dotenvy = "*"
chrono-tz = "*"
iana-time-zone = "*"
color-backtrace = "*"
clap-num = "*"
serde_json_path_to_error = "*"
tempfile = "*"
