[package]
name = "marain-server"
version = "0.1.0"
edition = "2021"
publish = false

[dependencies]
anyhow = "1"
chrono = "0.4"
env_logger = "0.10"
futures-channel = "0.3"
futures-util = { version = "0.3", features = ["sink"] }
log = "0.4"
rand_core = { version = "0.6", features = ["getrandom"] }
tokio = { version = "1", features = ["rt-multi-thread", "macros", "net"] }
tokio-tungstenite = "0.21"
uuid = { version = "1", features = ["v4"] }
x25519-dalek = { version = "2", features = ["reusable_secrets", "static_secrets"] }

[dev-dependencies]
bincode = "1.3"
