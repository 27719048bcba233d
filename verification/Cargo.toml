[package]
name = "jiri"
version = "0.1.0"
edition = "2021"
publish = false

[dependencies]
libp2p = { version = "=0.52.4", features = ["gossipsub", "mdns", "kad", "request-response", "floodsub", "noise", "tcp", "yamux", "websocket", "dns", "macros", "tokio"] }
futures = "=0.3.34"
multiaddr = "=0.18.2"
serde = { version = "=1.0.229", features = ["derive"] }
serde_derive = "=1.0.229"
serde_json = "=1.0.154"
tokio = { version = "=1.54.1", features = ["full"] }
warp = "=0.3.7"
clap = { version = "=4.6.7", features = ["derive"] }
env_logger = "=0.10.2"
log = "=0.4.35"
async-channel = "=1.9.0"
async-trait = "=0.1.92"
bytes = "=1.12.1"
