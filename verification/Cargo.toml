[package]
name = "aegis"
version = "0.1.0"
edition = "2021"
publish = false

[dependencies]
aes = "=0.8.4"
async-stream = "=0.3.6"
axum = { version = "=0.8.9", features = ["ws"] }
base64 = "=0.22.1"
cbc = { version = "=0.1.2", features = ["alloc"] }
clap = { version = "=4.6.7", features = ["derive"] }
futures-core = "=0.3.34"
futures-util = "=0.3.34"
libc = "=0.2.191"
libloading = "=0.8.9"
pbkdf2 = "=0.12.2"
rusqlite = { version = "=0.32.1", features = ["bundled"] }
serde = { version = "=1.0.229", features = ["derive"] }
serde_json = { version = "=1.0.154", features = ["raw_value"] }
sha1 = "=0.10.7"
tempfile = "=3.27.0"
thiserror = "=2.0.21"
tokio = { version = "=1.54.1", features = ["rt-multi-thread", "net", "time", "sync", "io-util", "macros"] }
