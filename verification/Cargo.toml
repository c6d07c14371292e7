[package]
name = "p2p_network"
version = "0.1.0"
edition = "2021"
publish = false

[dependencies]
byteorder = "=1.5.0"
libp2p = { version = "=0.54.1", features = ["ed25519", "kad", "request-response", "tokio", "macros", "cbor", "identify", "mdns", "ping", "quic"] }
libp2p-stream = "0.2.0-alpha"
tokio = { version = "=1.54.1", features = ["full"] }
futures = "=0.3.34"
async-trait = "=0.1.92"
anyhow = "=1.0.104"
serde = { version = "=1.0.229", features = ["derive"] }
ed25519-dalek = "=2.2.0"
