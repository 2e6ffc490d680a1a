[package]
name = "lnd_nwc"
version = "0.1.0"
edition = "2021"
publish = false

[dependencies]
hex = "=0.4.3"
urlencoding = "=2.1.3"
sha2 = "=0.11.0"
secp256k1 = { version = "=0.33.1", features = ["rand"] }
nostr = { version = "=0.45.5", features = ["nip04"] }
nostr-sdk = "=0.45.4"
nwc = "=0.45.1"
tokio = { version = "*", features = ["full"] }
clap = { version = "*", features = ["derive"] }
confy = "*"
serde = { version = "*", features = ["derive"] }
serde_json = "*"
tracing = "*"
tracing-subscriber = "*"
futures = "*"
lnd_grpc_rust = "*"
