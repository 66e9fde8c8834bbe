[package]
name = "node_fleet"
version = "0.1.0"
edition = "2021"
publish = false

[dependencies]
users = "=0.11.0"
libp2p-identity = { version = "=0.3.0", features = ["peerid", "rand", "ed25519"] }
clap = { version = "=4.6.7", features = ["derive"] }
tokio = { version = "=1.53.2", features = ["rt-multi-thread", "macros"] }
color-eyre = "=0.6.5"
semver = "1"
sn-releases = "=0.3.1"
