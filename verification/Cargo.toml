[package]
name = "peer_chat"
version = "0.1.0"
edition = "2021"
publish = false

[dependencies]
uuid = { version = "=1.27.0", features = ["v4"] }
libp2p = { version = "=0.57.0", default-features = false, features = ["ed25519", "noise"] }
log = "=0.4.34"
pretty_env_logger = "=0.5.0"
termion = "=4.0.6"
tui = { version = "=0.19.0", default-features = false, features = ["termion"] }

[dev-dependencies]
serde_json = "=1.0.151"
