[package]
name = "grid_node"
version = "0.1.0"
edition = "2021"
publish = false

[dependencies]
rand = "0.8"
serde = { version = "1", features = ["derive"] }
serde_json = "1"
tokio = { version = "1", features = ["macros", "rt-multi-thread"] }
warp = "0.3"
leveldb = "0.8"
libp2p = { version = "0.52", features = ["gossipsub", "mdns", "noise", "tcp", "yamux", "async-std"] }
libp2p-quic = { version = "0.9", features = ["async-std"] }
async-std = { version = "1", features = ["attributes"] }
futures = "0.3"
