[package]
name = "cryptomeria_ingest"
version = "0.1.0"
edition = "2021"
publish = false

[dependencies]
chrono = { version = "=0.4.45", default-features = false, features = ["alloc", "std"] }
crc32fast = "=1.5.4"
env_logger = "=0.11.11"
fastrand = "=2.5.0"
futures-util = { version = "=0.3.34", features = ["sink"] }
hmac = "=0.12.1"
log = "=0.4.35"
rasant = "=1.2.0"
reqwest = { version = "=0.12.28", default-features = false, features = ["json", "rustls-tls"] }
serde = { version = "=1.0.229", features = ["derive"] }
serde_json = "=1.0.154"
sha2 = "=0.10.9"
tokio = { version = "=1.54.1", features = ["macros", "net", "rt-multi-thread", "signal", "sync", "time"] }
tokio-tungstenite = { version = "=0.24.0", features = ["rustls-tls-webpki-roots"] }
