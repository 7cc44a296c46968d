[package]
name = "vrust"
version = "0.1.0"
edition = "2021"
publish = false

[dependencies]
petgraph = "0.6"
hashbrown = "0.12"
regex = "1"
itertools = "0.10"
either = "1"
lazy_static = "1"
log = "0.4"
env_logger = "0.9"
semver = "1"
cargo-lock = "7"
chrono = "0.4"
serde = { version = "1", features = ["derive"] }
serde_json = "1"
