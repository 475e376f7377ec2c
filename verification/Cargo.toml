[package]
name = "gossipsub_testground"
version = "0.1.0"
edition = "2021"
publish = false

[dependencies]
chrono = { version = "=0.4.45", default-features = false, features = ["clock", "std"] }
clap = { version = "=4.6.7", default-features = false, features = ["derive", "std", "help", "usage", "error-context"] }
delay_map = "=0.4.1"
futures = "=0.3.34"
libp2p = { version = "=0.53.2", default-features = false, features = ["dns", "ed25519", "gossipsub", "macros", "noise", "serde", "tcp", "tokio", "yamux"] }
prometheus-client = { version = "=0.22.3", features = ["protobuf"] }
prost = "=0.12.6"
rand = { version = "=0.8.8", features = ["small_rng"] }
rand_chacha = "=0.3.1"
serde = { version = "=1.0.229", features = ["derive"] }
serde_json = "=1.0.154"
sha2 = "=0.10.9"
tokio = { version = "=1.54.1", features = ["macros", "rt-multi-thread", "sync", "time"] }
tokio-util = { version = "=0.7.20", features = ["time"] }
tracing = "=0.1.44"
tracing-subscriber = { version = "=0.3.23", features = ["env-filter"] }
