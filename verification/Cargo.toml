[package]
name = "proxy_backend"
version = "0.1.0"
edition = "2021"
publish = false

[dependencies]
aes = "=0.9.4"
axum = { version = "=0.8.9", features = ["ws", "multipart"] }
base64 = "=0.22.1"
brotli = "=9.1.1"
bytes = "=1.12.1"
directories = "=6.0.0"
flate2 = "=1.1.10"
futures-util = "=0.3.34"
hex = "=0.4.3"
http = "=1.5.0"
parking_lot = "=0.13.0"
png = "=0.18.1"
prost-reflect = { version = "=0.16.5", features = ["serde"] }
rand = "=0.9.5"
reqwest = { version = "=0.13.5", default-features = false, features = ["json", "stream"] }
serde = { version = "=1.0.229", features = ["derive"] }
serde_json = "=1.0.154"
sha2 = "=0.11.1"
sysinfo = "=0.40.1"
thiserror = "=2.0.21"
tokio = { version = "=1.54.1", features = ["full"] }
tokio-util = { version = "=0.7.20", features = ["io"] }
tower-http = { version = "=0.7.1", features = ["cors"] }
uuid = { version = "=1.29.0", features = ["v4", "serde"] }
zeroize = "=1.9.1"
zstd = "=0.14.3"
