[package]
name = "polis_protocol"
version = "0.1.0"
edition = "2021"
publish = false

[dependencies]
sha2 = "0.10"
hex = "0.4"
ed25519-dalek = "2"
rand = "0.8"
chrono = "0.4"
uuid = { version = "1", features = ["v4"] }
serde = { version = "1", features = ["derive"] }
serde_json = "1"
tokio = { version = "1", features = ["full"] }
axum = "0.7"
tower-http = { version = "0.5", features = ["cors"] }
prometheus = { version = "0.13", default-features = false }
lazy_static = "1"
env_logger = "0.11"
futures = "0.3"
libp2p = { version = "0.53", features = ["tokio", "gossipsub", "mdns", "kad", "identify", "noise", "tcp", "yamux", "macros"] }
