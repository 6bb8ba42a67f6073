[package]
name = "mujina-miner"
version = "0.1.0"
edition = "2021"
publish = false

[dependencies]
anyhow = "1"
async-trait = "0.1"
bitcoin = "0.32"
bytes = "1"
inventory = "0.3"
nix = { version = "0.30", features = ["ioctl"] }
rustix = { version = "1", features = ["fs"] }
thiserror = "2"
tokio = { version = "1", features = ["fs", "io-util", "macros", "rt", "rt-multi-thread", "sync", "time"] }
tokio-util = { version = "0.7", features = ["codec"] }
