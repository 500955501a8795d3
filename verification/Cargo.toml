[package]
name = "gossip_node"
version = "0.1.0"
edition = "2021"
publish = false

[dependencies]
bellman = "=0.13.1"
bls12_381 = "=0.7.1"
rand = "=0.8.8"
serde = { version = "=1.0.229", features = ["derive"] }
serde_json = "=1.0.151"
libp2p = { version = "=0.57.0", features = ["tokio", "tcp", "noise", "yamux", "gossipsub", "mdns", "quic", "macros", "ping", "ed25519"] }
tokio = { version = "=1.53.2", features = ["macros", "rt-multi-thread", "io-std", "io-util", "time"] }
