[package]
name = "k9_pad"
version = "0.1.0"
edition = "2021"
publish = false

[dependencies]
heapless = "0.8"
serde = { version = "1", features = ["derive"] }
serde_json = "1"
chrono = "0.4"
tokio = { version = "1", features = ["rt", "macros", "sync", "time"] }
log = "0.4"
anyhow = "1"
thiserror = "2"
futures = "0.3"
uuid = "1"
dirs = "6"
hidapi = "2"
bluest = "0.6"
reqwest = { version = "0.12", default-features = false, features = ["json", "rustls-tls"] }
embedded-graphics = "0.8"
embedded-hal-async = "1"
